use vstd::prelude::*;
use vstd::string::StringExecFns;

use crate::warning::Warning;
use crate::warning::WarningView;

verus! {

/// The exact message for a warning model: every field is interpolated
/// verbatim into fixed surrounding text, one message shape per variant.
pub open spec fn spec_render(v: WarningView) -> Seq<char> {
    match v {
        WarningView::UnknownSection { unknown_section, source } => {
            "Found unknown config section"@ + (match source {
                Some(src) => " in "@ + src,
                None => Seq::<char>::empty(),
            }) + ": ["@ + unknown_section
                + "]\nThis notation for profiles has been deprecated and may result in the profile not being registered in future versions.\nPlease use [profile."@
                + unknown_section + "] instead or run `forge config --fix`."@
        },
        WarningView::NoLocalToml { path } => {
            "No local TOML found to fix at "@ + path
                + ".\nChange the current directory to a project path or set the foundry.toml path with the `FOUNDRY_CONFIG` environment variable"@
        },
        WarningView::CouldNotReadToml { path, err } => {
            "Could not read TOML at "@ + path + ": "@ + err
        },
        WarningView::CouldNotWriteToml { path, err } => {
            "Could not write TOML to "@ + path + ": "@ + err
        },
        WarningView::CouldNotFixProfile { path, profile, err } => {
            "Could not fix ["@ + profile + "] in TOML at "@ + path + ": "@ + err
        },
        WarningView::DeprecatedKey { old, new } => {
            if new.len() == 0 {
                "Key `"@ + old + "` is being deprecated and will be removed in future versions."@
            } else {
                "Key `"@ + old + "` is being deprecated in favor of `"@ + new
                    + "`. It will be removed in future versions."@
            }
        },
    }
}

/// Whether `needle` occurs contiguously somewhere in `hay`.
pub open spec fn contains_seq(hay: Seq<char>, needle: Seq<char>) -> bool {
    exists|i: int|
        0 <= i && i + needle.len() <= hay.len() && #[trigger] hay.subrange(i, i + needle.len())
            == needle
}

proof fn lemma_contains_of_concat(hay: Seq<char>, a: Seq<char>, b: Seq<char>, c: Seq<char>)
    requires
        hay =~= a + b + c,
    ensures
        contains_seq(hay, b),
{
    let i = a.len() as int;
    assert(hay.subrange(i, i + b.len()) =~= b);
}

impl Warning {
    /// Renders the warning as its complete human-readable message.
    pub fn render(&self) -> (r: String)
        ensures
            r@ == spec_render(self@),
    {
        let mut r = String::new();
        match self {
            Warning::UnknownSection { unknown_section, source } => {
                r.append("Found unknown config section");
                match source {
                    Some(src) => {
                        r.append(" in ");
                        r.append(src.as_str());
                    },
                    None => {},
                }
                r.append(": [");
                r.append(unknown_section.as_str());
                r.append(
                    "]\nThis notation for profiles has been deprecated and may result in the profile not being registered in future versions.\nPlease use [profile.",
                );
                r.append(unknown_section.as_str());
                r.append("] instead or run `forge config --fix`.");
            },
            Warning::NoLocalToml { path } => {
                r.append("No local TOML found to fix at ");
                r.append(path.as_str());
                r.append(
                    ".\nChange the current directory to a project path or set the foundry.toml path with the `FOUNDRY_CONFIG` environment variable",
                );
            },
            Warning::CouldNotReadToml { path, err } => {
                r.append("Could not read TOML at ");
                r.append(path.as_str());
                r.append(": ");
                r.append(err.as_str());
            },
            Warning::CouldNotWriteToml { path, err } => {
                r.append("Could not write TOML to ");
                r.append(path.as_str());
                r.append(": ");
                r.append(err.as_str());
            },
            Warning::CouldNotFixProfile { path, profile, err } => {
                r.append("Could not fix [");
                r.append(profile.as_str());
                r.append("] in TOML at ");
                r.append(path.as_str());
                r.append(": ");
                r.append(err.as_str());
            },
            Warning::DeprecatedKey { old, new } => {
                r.append("Key `");
                r.append(old.as_str());
                if new.as_str().is_empty() {
                    r.append("` is being deprecated and will be removed in future versions.");
                } else {
                    r.append("` is being deprecated in favor of `");
                    r.append(new.as_str());
                    r.append("`. It will be removed in future versions.");
                }
            },
        }
        proof {
            assert(r@ =~= spec_render(self@));
        }
        r
    }
}

/// Rendering is total and complete: every warning renders to a non-empty
/// message, and the message contains each of the warning's field values
/// verbatim as a substring.
pub proof fn lemma_render_total(v: WarningView)
    ensures
        spec_render(v).len() > 0,
        match v {
            WarningView::UnknownSection { unknown_section, source } => {
                &&& contains_seq(spec_render(v), unknown_section)
                &&& (source matches Some(src) ==> contains_seq(spec_render(v), src))
            },
            WarningView::NoLocalToml { path } => contains_seq(spec_render(v), path),
            WarningView::CouldNotReadToml { path, err } => {
                &&& contains_seq(spec_render(v), path)
                &&& contains_seq(spec_render(v), err)
            },
            WarningView::CouldNotWriteToml { path, err } => {
                &&& contains_seq(spec_render(v), path)
                &&& contains_seq(spec_render(v), err)
            },
            WarningView::CouldNotFixProfile { path, profile, err } => {
                &&& contains_seq(spec_render(v), path)
                &&& contains_seq(spec_render(v), profile)
                &&& contains_seq(spec_render(v), err)
            },
            WarningView::DeprecatedKey { old, new } => {
                &&& contains_seq(spec_render(v), old)
                &&& (new.len() > 0 ==> contains_seq(spec_render(v), new))
            },
        },
{
    let r = spec_render(v);
    match v {
        WarningView::UnknownSection { unknown_section, source } => {
            reveal_strlit("Found unknown config section");
            let head = "Found unknown config section"@ + (match source {
                Some(src) => " in "@ + src,
                None => Seq::<char>::empty(),
            });
            let mid =
                "]\nThis notation for profiles has been deprecated and may result in the profile not being registered in future versions.\nPlease use [profile."@;
            lemma_contains_of_concat(
                r,
                head + ": ["@,
                unknown_section,
                mid + unknown_section + "] instead or run `forge config --fix`."@,
            );
            match source {
                Some(src) => {
                    lemma_contains_of_concat(
                        r,
                        "Found unknown config section"@ + " in "@,
                        src,
                        ": ["@ + unknown_section + mid + unknown_section
                            + "] instead or run `forge config --fix`."@,
                    );
                },
                None => {},
            }
        },
        WarningView::NoLocalToml { path } => {
            reveal_strlit("No local TOML found to fix at ");
            lemma_contains_of_concat(
                r,
                "No local TOML found to fix at "@,
                path,
                ".\nChange the current directory to a project path or set the foundry.toml path with the `FOUNDRY_CONFIG` environment variable"@,
            );
        },
        WarningView::CouldNotReadToml { path, err } => {
            reveal_strlit("Could not read TOML at ");
            lemma_contains_of_concat(
                r,
                "Could not read TOML at "@,
                path,
                ": "@ + err,
            );
            lemma_contains_of_concat(r, "Could not read TOML at "@ + path + ": "@, err, Seq::<
                char,
            >::empty());
            assert(r =~= "Could not read TOML at "@ + path + ": "@ + err + Seq::<char>::empty());
        },
        WarningView::CouldNotWriteToml { path, err } => {
            reveal_strlit("Could not write TOML to ");
            lemma_contains_of_concat(
                r,
                "Could not write TOML to "@,
                path,
                ": "@ + err,
            );
            assert(r =~= "Could not write TOML to "@ + path + ": "@ + err + Seq::<char>::empty());
            lemma_contains_of_concat(r, "Could not write TOML to "@ + path + ": "@, err, Seq::<
                char,
            >::empty());
        },
        WarningView::CouldNotFixProfile { path, profile, err } => {
            reveal_strlit("Could not fix [");
            lemma_contains_of_concat(
                r,
                "Could not fix ["@,
                profile,
                "] in TOML at "@ + path + ": "@ + err,
            );
            lemma_contains_of_concat(
                r,
                "Could not fix ["@ + profile + "] in TOML at "@,
                path,
                ": "@ + err,
            );
            assert(r =~= "Could not fix ["@ + profile + "] in TOML at "@ + path + ": "@ + err
                + Seq::<char>::empty());
            lemma_contains_of_concat(
                r,
                "Could not fix ["@ + profile + "] in TOML at "@ + path + ": "@,
                err,
                Seq::<char>::empty(),
            );
        },
        WarningView::DeprecatedKey { old, new } => {
            reveal_strlit("Key `");
            if new.len() == 0 {
                lemma_contains_of_concat(
                    r,
                    "Key `"@,
                    old,
                    "` is being deprecated and will be removed in future versions."@,
                );
            } else {
                lemma_contains_of_concat(
                    r,
                    "Key `"@,
                    old,
                    "` is being deprecated in favor of `"@ + new
                        + "`. It will be removed in future versions."@,
                );
                lemma_contains_of_concat(
                    r,
                    "Key `"@ + old + "` is being deprecated in favor of `"@,
                    new,
                    "`. It will be removed in future versions."@,
                );
            }
        },
    }
}

} // verus!
