//! Parsing of dotted numeric version strings into a tagged version value.
use crate::text::{
    chars_of, dec_spec, parse_u64, parse_u64_spec, space_pred, split_on, split_on_spec,
    string_from_chars, trim_space, trim_spec, u64_dec, extend_chars,
};
use vstd::prelude::*;
use vstd::slice::slice_subrange;

verus! {

/// A version, as reported by an operating system.
#[derive(Debug, Clone, PartialEq, Eq)]
pub enum Version {
    /// Unknown version.
    Unknown,
    /// Semantic version (major.minor.patch).
    Semantic(u64, u64, u64),
    /// Rolling version, optionally with the release date.
    Rolling(Option<String>),
    /// Custom version format.
    Custom(String),
}

/// The pieces `str::split_terminator` yields: split on `d`, one final
/// empty piece dropped when the text ends with the delimiter.
pub open spec fn split_term_spec(s: Seq<char>, d: char) -> Seq<Seq<char>> {
    if s.len() == 0 {
        Seq::<Seq<char>>::empty()
    } else if s.last() == d {
        split_on_spec(s.drop_last(), d)
    } else {
        split_on_spec(s, d)
    }
}

/// What the version parser accepts: the trimmed input split on `'.'`;
/// the first component must parse as an unsigned integer, the second and
/// third default to zero when missing, and any fourth component fails the
/// whole parse.
pub open spec fn parse_version_spec(s: Seq<char>) -> Option<(u64, u64, u64)> {
    let t = trim_spec(s, space_pred());
    let ps = split_term_spec(t, '.');
    if ps.len() == 0 || ps.len() > 3 {
        None
    } else {
        let major = parse_u64_spec(ps[0]);
        let minor = if ps.len() > 1 {
            parse_u64_spec(ps[1])
        } else {
            Some(0u64)
        };
        let patch = if ps.len() > 2 {
            parse_u64_spec(ps[2])
        } else {
            Some(0u64)
        };
        if major is Some && minor is Some && patch is Some {
            Some((major->0, minor->0, patch->0))
        } else {
            None
        }
    }
}

/// Parse a version string into its (major, minor, patch) triple.
pub fn parse_version_str(s: &str) -> (r: Option<(u64, u64, u64)>)
    ensures
        r == parse_version_spec(s@),
{
    let cs = chars_of(s);
    let t = trim_space(cs.as_slice());
    if t.len() == 0 {
        return None;
    }
    let t2: &[char] = if t.as_slice()[t.len() - 1] == '.' {
        slice_subrange(t.as_slice(), 0, t.len() - 1)
    } else {
        t.as_slice()
    };
    let pieces = split_on(t2, '.');
    proof {
        if t@.last() == '.' {
            assert(t2@ =~= t@.drop_last());
        }
        crate::text::lemma_split_on_len(t2@, '.');
    }
    if pieces.len() > 3 {
        return None;
    }
    let major = match parse_u64(pieces[0].as_slice()) {
        Some(v) => v,
        None => {
            return None;
        },
    };
    let minor = if pieces.len() > 1 {
        match parse_u64(pieces[1].as_slice()) {
            Some(v) => v,
            None => {
                return None;
            },
        }
    } else {
        0u64
    };
    let patch = if pieces.len() > 2 {
        match parse_u64(pieces[2].as_slice()) {
            Some(v) => v,
            None => {
                return None;
            },
        }
    } else {
        0u64
    };
    Some((major, minor, patch))
}

/// The display form of a version: `"Unknown"`, `"major.minor.patch"`,
/// `"Rolling Release"` with an optional date, or the custom text itself.
pub open spec fn version_display_spec(v: Version) -> Seq<char> {
    match v {
        Version::Unknown => "Unknown"@,
        Version::Semantic(a, b, c) => dec_spec(a as nat) + seq!['.'] + dec_spec(b as nat)
            + seq!['.'] + dec_spec(c as nat),
        Version::Rolling(d) => match d {
            Some(date) => "Rolling Release ("@ + date@ + ")"@,
            None => "Rolling Release"@,
        },
        Version::Custom(text) => text@,
    }
}

impl Version {
    /// Classify a raw version string: empty means unknown, a dotted
    /// numeric string is semantic, anything else is custom.
    pub fn from_string(s: &str) -> (r: Self)
        ensures
            s@.len() == 0 ==> r == Version::Unknown,
            s@.len() > 0 ==> match parse_version_spec(s@) {
                Some(t) => r == Version::Semantic(t.0, t.1, t.2),
                None => r matches Version::Custom(c) && c@ == s@,
            },
    {
        if s.is_empty() {
            Version::Unknown
        } else {
            match parse_version_str(s) {
                Some(t) => Version::Semantic(t.0, t.1, t.2),
                None => Version::Custom(s.to_owned()),
            }
        }
    }

    /// Write the version out for display.
    pub fn display(&self) -> (r: String)
        ensures
            r@ == version_display_spec(*self),
    {
        match self {
            Version::Unknown => String::from_str("Unknown"),
            Version::Semantic(a, b, c) => {
                let mut v = u64_dec(*a);
                v.push('.');
                let bd = u64_dec(*b);
                extend_chars(&mut v, bd.as_slice());
                v.push('.');
                let cd = u64_dec(*c);
                extend_chars(&mut v, cd.as_slice());
                proof {
                    assert(v@ =~= version_display_spec(*self));
                }
                string_from_chars(v.as_slice())
            },
            Version::Rolling(d) => match d {
                Some(date) => {
                    let mut v = chars_of("Rolling Release (");
                    let dc = chars_of(date.as_str());
                    extend_chars(&mut v, dc.as_slice());
                    v.push(')');
                    proof {
                        reveal_strlit(")");
                        assert(v@ =~= version_display_spec(*self));
                    }
                    string_from_chars(v.as_slice())
                },
                None => String::from_str("Rolling Release"),
            },
            Version::Custom(text) => text.clone(),
        }
    }
}

impl Default for Version {
    /// The default version is unknown.
    fn default() -> (r: Self)
        ensures
            r == Version::Unknown,
    {
        Version::Unknown
    }
}

} // verus!
