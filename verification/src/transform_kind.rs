//! The kinds of intensity transforms that a pipeline step can hold.

use vstd::prelude::*;

verus! {

/// A kind of intensity transform.
#[derive(Clone, Copy, Debug, PartialEq, Eq, Hash, Structural)]
pub enum TransformKind {
    Negative,
    GammaCorrection,
    LogTransform,
}

/// The name shown to the user for each kind.
pub open spec fn kind_name(kind: TransformKind) -> Seq<char> {
    match kind {
        TransformKind::Negative => "Негатив"@,
        TransformKind::GammaCorrection => "Гамма-коррекция"@,
        TransformKind::LogTransform => "Логарифм. преобраз."@,
    }
}

impl TransformKind {
    /// The name shown to the user.
    pub fn name(self) -> (res: &'static str)
        ensures
            res@ == kind_name(self),
    {
        match self {
            TransformKind::Negative => "Негатив",
            TransformKind::GammaCorrection => "Гамма-коррекция",
            TransformKind::LogTransform => "Логарифм. преобраз.",
        }
    }

    /// Every kind, in the order the user is offered them.
    pub fn available_kinds() -> (res: &'static [TransformKind])
        ensures
            res@ == seq![
                TransformKind::Negative,
                TransformKind::GammaCorrection,
                TransformKind::LogTransform,
            ],
    {
        &[TransformKind::Negative, TransformKind::GammaCorrection, TransformKind::LogTransform]
    }
}

/// The label of a kind in the tree of available transforms: its name.
pub fn transform_kind_label(kind: TransformKind) -> (res: &'static str)
    ensures
        res@ == kind_name(kind),
{
    kind.name()
}

} // verus!
