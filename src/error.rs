use vstd::prelude::*;

verus! {

/// Relies on `xml::writer::Error` (the emitter error of xml-rs), carried
/// opaquely inside `PetriError::XmlWriterError`.
#[verifier::external_type_specification]
#[verifier::external_body]
pub struct ExXmlWriterError(xml::writer::Error);

/// Everything that can go wrong while building or exporting a net.
#[derive(Debug)]
pub enum PetriError {
    BipartitionViolation,
    PlaceNotFound,
    TransitionNotFound,
    ArcNotFound,
    PageNotFound,
    NetNotFound,
    ObjectNotFound,
    InvalidData(String),
    CorruptedData(String),
    XmlWriterError(xml::writer::Error),
}

impl From<xml::writer::Error> for PetriError {
    fn from(error: xml::writer::Error) -> (r: Self)
        ensures
            r == PetriError::XmlWriterError(error),
    {
        PetriError::XmlWriterError(error)
    }
}

impl vstd::std_specs::convert::FromSpecImpl<xml::writer::Error> for PetriError {
    open spec fn obeys_from_spec() -> bool {
        true
    }

    open spec fn from_spec(error: xml::writer::Error) -> PetriError {
        PetriError::XmlWriterError(error)
    }
}

/// The fixed description of each kind of error; the emitter's failures
/// describe themselves.
pub open spec fn description_text(e: PetriError) -> Seq<char> {
    match e {
        PetriError::BipartitionViolation => "Bipartition Violation: Edges cannot lead to identical Node types. They are only allowed from places to transitions or vice versa"@,
        PetriError::PlaceNotFound => "Place Not Found: There is no corresponding place in the internal representation"@,
        PetriError::TransitionNotFound => "Transition Not Found: There is no corresponding transition in the internal representation"@,
        PetriError::ArcNotFound => "Arc Not Found: There is no corresponding arc in the internal representation"@,
        PetriError::ObjectNotFound => "Object Not Found: There is no corresponding object in the internal representation"@,
        PetriError::PageNotFound => "Page Not Found: Could not find (sub)page in the given path"@,
        PetriError::NetNotFound => "Net Not Found: Could not find the referenced petri net in the pnml document"@,
        PetriError::InvalidData(_) => "Invalid Data: Tried to use data in a place where it do not belong"@,
        PetriError::CorruptedData(_) => "Corrupted Data: There where objects in arrays there they shouldn't be"@,
        PetriError::XmlWriterError(_) => seq![],
    }
}

/// Relies on the `Display` impl of xml-rs's `EmitterError`, through
/// `ToString`, for the text of an emitter failure.
#[verifier::external_body]
fn xml_error_text(e: &xml::writer::Error) -> String {
    e.to_string()
}

impl PetriError {
    /// What kind of failure this is, in words.
    pub fn description(&self) -> (r: String)
        ensures
            !(self is XmlWriterError) ==> r@ == description_text(*self),
    {
        match self {
            PetriError::BipartitionViolation => String::from_str("Bipartition Violation: Edges cannot lead to identical Node types. They are only allowed from places to transitions or vice versa"),
            PetriError::PlaceNotFound => String::from_str("Place Not Found: There is no corresponding place in the internal representation"),
            PetriError::TransitionNotFound => String::from_str("Transition Not Found: There is no corresponding transition in the internal representation"),
            PetriError::ArcNotFound => String::from_str("Arc Not Found: There is no corresponding arc in the internal representation"),
            PetriError::ObjectNotFound => String::from_str("Object Not Found: There is no corresponding object in the internal representation"),
            PetriError::PageNotFound => String::from_str("Page Not Found: Could not find (sub)page in the given path"),
            PetriError::NetNotFound => String::from_str("Net Not Found: Could not find the referenced petri net in the pnml document"),
            PetriError::InvalidData(_) => String::from_str("Invalid Data: Tried to use data in a place where it do not belong"),
            PetriError::CorruptedData(_) => String::from_str("Corrupted Data: There where objects in arrays there they shouldn't be"),
            PetriError::XmlWriterError(e) => xml_error_text(e),
        }
    }

    /// The description, followed for `InvalidData` and `CorruptedData` by
    /// `": "` and their detail.
    pub fn message(&self) -> (r: String)
        ensures
            !(self is XmlWriterError) ==> r@ == match *self {
                PetriError::InvalidData(d) => description_text(*self) + ": "@ + d@,
                PetriError::CorruptedData(d) => description_text(*self) + ": "@ + d@,
                _ => description_text(*self),
            },
    {
        let mut text = self.description();
        match self {
            PetriError::InvalidData(d) => {
                text.append(": ");
                text.append(d.as_str());
            },
            PetriError::CorruptedData(d) => {
                text.append(": ");
                text.append(d.as_str());
            },
            _ => {},
        }
        text
    }
}

} // verus!
