//! Data elements: the tag that identifies one, its value representation, and
//! the allow-list of representations that are projected.

use vstd::prelude::*;
use crate::value::{ElementValue, ValueModel};

verus! {

/// The identifier of a data element: a group number and an element number.
#[derive(Clone, Copy, Debug, PartialEq, Eq, PartialOrd, Ord, Hash)]
pub struct Tag {
    /// The group number.
    pub group: u16,
    /// The element number within the group.
    pub element: u16,
}

/// The value representation of a data element.
#[derive(Clone, Copy, Debug, PartialEq, Eq, Hash)]
pub enum Vr {
    /// Application Entity
    AE,
    /// Age String
    AS,
    /// Attribute Tag
    AT,
    /// Code String
    CS,
    /// Date
    DA,
    /// Decimal String
    DS,
    /// Date Time
    DT,
    /// Floating Point Single
    FL,
    /// Floating Point Double
    FD,
    /// Integer String
    IS,
    /// Long String
    LO,
    /// Long Text
    LT,
    /// Other Byte
    OB,
    /// Other Double
    OD,
    /// Other Float
    OF,
    /// Other Long
    OL,
    /// Other Very Long
    OV,
    /// Other Word
    OW,
    /// Person Name
    PN,
    /// Short String
    SH,
    /// Signed Long
    SL,
    /// Sequence of Items
    SQ,
    /// Signed Short
    SS,
    /// Short Text
    ST,
    /// Signed Very Long
    SV,
    /// Time
    TM,
    /// Unlimited Characters
    UC,
    /// Unique Identifier
    UI,
    /// Unsigned Long
    UL,
    /// Unknown
    UN,
    /// Universal Resource Identifier
    UR,
    /// Unsigned Short
    US,
    /// Unlimited Text
    UT,
    /// Unsigned Very Long
    UV,
}

/// The value representations whose elements are projected: the textual ones,
/// the two floating-point ones, the two very long integers and the unsigned
/// long.
pub open spec fn allow_list() -> Set<Vr> {
    set![
        Vr::AE,
        Vr::AS,
        Vr::AT,
        Vr::CS,
        Vr::DA,
        Vr::DS,
        Vr::DT,
        Vr::IS,
        Vr::LO,
        Vr::LT,
        Vr::PN,
        Vr::SH,
        Vr::ST,
        Vr::TM,
        Vr::UC,
        Vr::UI,
        Vr::UR,
        Vr::UT,
        Vr::FL,
        Vr::FD,
        Vr::SV,
        Vr::UV,
        Vr::UL,
    ]
}

impl Vr {
    /// Whether elements of this representation are projected.
    pub fn is_allowed(&self) -> (allowed: bool)
        ensures
            allowed == allow_list().contains(*self),
    {
        match *self {
            Vr::AE
            | Vr::AS
            | Vr::AT
            | Vr::CS
            | Vr::DA
            | Vr::DS
            | Vr::DT
            | Vr::IS
            | Vr::LO
            | Vr::LT
            | Vr::PN
            | Vr::SH
            | Vr::ST
            | Vr::TM
            | Vr::UC
            | Vr::UI
            | Vr::UR
            | Vr::UT
            | Vr::FL
            | Vr::FD
            | Vr::SV
            | Vr::UV
            | Vr::UL => true,
            Vr::OB
            | Vr::OD
            | Vr::OF
            | Vr::OL
            | Vr::OV
            | Vr::OW
            | Vr::SL
            | Vr::SQ
            | Vr::SS
            | Vr::UN
            | Vr::US => false,
        }
    }
}

/// One data element of a decoded object.
#[derive(Clone, Debug)]
pub struct Element {
    /// The element's identifier.
    pub tag: Tag,
    /// The element's value representation.
    pub vr: Vr,
    /// The element's value.
    pub value: ElementValue,
}

/// What an element is, with its value as a model.
pub struct ElementModel {
    pub tag: Tag,
    pub vr: Vr,
    pub value: ValueModel,
}

impl View for Element {
    type V = ElementModel;

    open spec fn view(&self) -> ElementModel {
        ElementModel { tag: self.tag, vr: self.vr, value: self.value@ }
    }
}

/// The models of a list of elements, in order.
pub open spec fn models_of(elements: Seq<Element>) -> Seq<ElementModel> {
    elements.map_values(|e: Element| e@)
}

} // verus!
