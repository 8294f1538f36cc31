use vstd::prelude::*;
use vstd::std_specs::cmp::PartialEqSpec;

verus! {

/// The mathematical model of a [`Warning`]: the same six variants, with every
/// string field replaced by its sequence of characters.
pub enum WarningView {
    UnknownSection { unknown_section: Seq<char>, source: Option<Seq<char>> },
    NoLocalToml { path: Seq<char> },
    CouldNotReadToml { path: Seq<char>, err: Seq<char> },
    CouldNotWriteToml { path: Seq<char>, err: Seq<char> },
    CouldNotFixProfile { path: Seq<char>, profile: Seq<char>, err: Seq<char> },
    DeprecatedKey { old: Seq<char>, new: Seq<char> },
}

/// Warnings emitted while locating, reading, validating or repairing a
/// project's TOML configuration file.
///
/// A value is plain immutable data: it carries everything needed both to
/// branch on the kind of condition and to render a complete message.
#[derive(Clone, Debug)]
pub enum Warning {
    /// An unknown top-level section was encountered in a TOML document and is
    /// interpreted as a legacy implicit-profile declaration.
    UnknownSection {
        /// The unrecognized section name.
        unknown_section: String,
        /// Where the section was found (for example a file path), if known.
        source: Option<String>,
    },
    /// No local TOML file was found at the expected location.
    NoLocalToml {
        /// The path that was searched and not found.
        path: String,
    },
    /// Reading or parsing the TOML file failed.
    CouldNotReadToml {
        /// The path of the TOML file.
        path: String,
        /// The underlying error text.
        err: String,
    },
    /// Writing the TOML file failed.
    CouldNotWriteToml {
        /// The path of the TOML file.
        path: String,
        /// The underlying error text.
        err: String,
    },
    /// A profile section was not a table and could not be rewritten.
    CouldNotFixProfile {
        /// The path of the TOML file.
        path: String,
        /// The profile that was being fixed.
        profile: String,
        /// The underlying error text.
        err: String,
    },
    /// A key is deprecated; `new` names its replacement, or is empty to signal
    /// removal without replacement.
    DeprecatedKey {
        /// The key being deprecated.
        old: String,
        /// The replacement key; the empty string means the old key is being
        /// removed outright.
        new: String,
    },
}

impl View for Warning {
    type V = WarningView;

    open spec fn view(&self) -> WarningView {
        match *self {
            Warning::UnknownSection { ref unknown_section, ref source } => {
                WarningView::UnknownSection {
                    unknown_section: unknown_section@,
                    source: match *source {
                        Some(ref s) => Some(s@),
                        None => None,
                    },
                }
            },
            Warning::NoLocalToml { ref path } => WarningView::NoLocalToml { path: path@ },
            Warning::CouldNotReadToml { ref path, ref err } => {
                WarningView::CouldNotReadToml { path: path@, err: err@ }
            },
            Warning::CouldNotWriteToml { ref path, ref err } => {
                WarningView::CouldNotWriteToml { path: path@, err: err@ }
            },
            Warning::CouldNotFixProfile { ref path, ref profile, ref err } => {
                WarningView::CouldNotFixProfile { path: path@, profile: profile@, err: err@ }
            },
            Warning::DeprecatedKey { ref old, ref new } => {
                WarningView::DeprecatedKey { old: old@, new: new@ }
            },
        }
    }
}

impl vstd::std_specs::cmp::PartialEqSpecImpl for Warning {
    open spec fn obeys_eq_spec() -> bool {
        true
    }

    open spec fn eq_spec(&self, other: &Warning) -> bool {
        self@ == other@
    }
}

impl PartialEq for Warning {
    fn eq(&self, other: &Warning) -> (r: bool) {
        match (self, other) {
            (
                Warning::UnknownSection { unknown_section: a, source: sa },
                Warning::UnknownSection { unknown_section: b, source: sb },
            ) => {
                *a == *b && match (sa, sb) {
                    (Some(x), Some(y)) => *x == *y,
                    (None, None) => true,
                    _ => false,
                }
            },
            (Warning::NoLocalToml { path: a }, Warning::NoLocalToml { path: b }) => *a == *b,
            (
                Warning::CouldNotReadToml { path: a, err: ea },
                Warning::CouldNotReadToml { path: b, err: eb },
            ) => *a == *b && *ea == *eb,
            (
                Warning::CouldNotWriteToml { path: a, err: ea },
                Warning::CouldNotWriteToml { path: b, err: eb },
            ) => *a == *b && *ea == *eb,
            (
                Warning::CouldNotFixProfile { path: a, profile: pa, err: ea },
                Warning::CouldNotFixProfile { path: b, profile: pb, err: eb },
            ) => *a == *b && *pa == *pb && *ea == *eb,
            (
                Warning::DeprecatedKey { old: oa, new: na },
                Warning::DeprecatedKey { old: ob, new: nb },
            ) => *oa == *ob && *na == *nb,
            _ => false,
        }
    }
}

impl Eq for Warning {}

/// Field-by-field comparison of two warning models: same variant and, for that
/// variant, equal fields.
pub open spec fn same_fields(a: WarningView, b: WarningView) -> bool {
    match (a, b) {
        (
            WarningView::UnknownSection { unknown_section: ua, source: sa },
            WarningView::UnknownSection { unknown_section: ub, source: sb },
        ) => ua == ub && sa == sb,
        (
            WarningView::NoLocalToml { path: pa },
            WarningView::NoLocalToml { path: pb },
        ) => pa == pb,
        (
            WarningView::CouldNotReadToml { path: pa, err: ea },
            WarningView::CouldNotReadToml { path: pb, err: eb },
        ) => pa == pb && ea == eb,
        (
            WarningView::CouldNotWriteToml { path: pa, err: ea },
            WarningView::CouldNotWriteToml { path: pb, err: eb },
        ) => pa == pb && ea == eb,
        (
            WarningView::CouldNotFixProfile { path: pa, profile: ra, err: ea },
            WarningView::CouldNotFixProfile { path: pb, profile: rb, err: eb },
        ) => pa == pb && ra == rb && ea == eb,
        (
            WarningView::DeprecatedKey { old: oa, new: na },
            WarningView::DeprecatedKey { old: ob, new: nb },
        ) => oa == ob && na == nb,
        _ => false,
    }
}

/// Equality on warnings is structural: two values are equal exactly when they
/// are the same variant with equal fields.
pub proof fn lemma_eq_structural(a: &Warning, b: &Warning)
    ensures
        a.eq_spec(b) <==> same_fields(a@, b@),
{
}

/// Equality on warnings is reflexive.
pub proof fn lemma_eq_reflexive(a: &Warning)
    ensures
        a.eq_spec(a),
{
}

/// Equality on warnings is symmetric.
pub proof fn lemma_eq_symmetric(a: &Warning, b: &Warning)
    ensures
        a.eq_spec(b) <==> b.eq_spec(a),
{
}

/// Equality on warnings is transitive.
pub proof fn lemma_eq_transitive(a: &Warning, b: &Warning, c: &Warning)
    ensures
        a.eq_spec(b) && b.eq_spec(c) ==> a.eq_spec(c),
{
}

} // verus!
