//! The aggregate error of a failed validation, and its text.
use vstd::prelude::*;
use vstd::string::*;

verus! {

/// Every problem that one validation found.
#[derive(Clone, Debug)]
pub struct ConfigError {
    /// Names that were absent, or present but blank (then suffixed `" (empty)"`).
    pub missing_vars: Vec<String>,
    /// Names paired with the reason their value was refused.
    pub invalid_vars: Vec<(String, String)>,
}

/// A list of strings as character sequences.
pub open spec fn strings_view(s: Seq<String>) -> Seq<Seq<char>> {
    s.map_values(|x: String| x@)
}

/// A list of string pairs as pairs of character sequences.
pub open spec fn pairs_view(s: Seq<(String, String)>) -> Seq<(Seq<char>, Seq<char>)> {
    s.map_values(|p: (String, String)| (p.0@, p.1@))
}

/// One indented, dashed line per missing name.
pub open spec fn missing_lines(s: Seq<Seq<char>>) -> Seq<char>
    decreases s.len(),
{
    if s.len() == 0 {
        Seq::empty()
    } else {
        missing_lines(s.drop_last()) + "  - "@ + s.last() + "\n"@
    }
}

/// One indented, dashed line per refused name, with its reason.
pub open spec fn invalid_lines(s: Seq<(Seq<char>, Seq<char>)>) -> Seq<char>
    decreases s.len(),
{
    if s.len() == 0 {
        Seq::empty()
    } else {
        invalid_lines(s.drop_last()) + "  - "@ + s.last().0 + ": "@ + s.last().1 + "\n"@
    }
}

/// The full text of an error: a header, then the missing section if there is
/// anything missing, then the invalid section if anything was refused.
pub open spec fn config_error_text(
    missing: Seq<Seq<char>>,
    invalid: Seq<(Seq<char>, Seq<char>)>,
) -> Seq<char> {
    "Configuration validation failed:\n"@ + (if missing.len() == 0 {
        Seq::empty()
    } else {
        "Missing required environment variables:\n"@ + missing_lines(missing)
    }) + (if invalid.len() == 0 {
        Seq::empty()
    } else {
        "Invalid environment variables:\n"@ + invalid_lines(invalid)
    })
}

impl ConfigError {
    /// The multi-line text that reports this error to an operator.
    pub fn render(&self) -> (r: String)
        ensures
            r@ == config_error_text(strings_view(self.missing_vars@), pairs_view(self.invalid_vars@)),
    {
        proof {
            reveal_strlit("Configuration validation failed:\n");
            reveal_strlit("Missing required environment variables:\n");
            reveal_strlit("Invalid environment variables:\n");
            reveal_strlit("  - ");
            reveal_strlit(": ");
            reveal_strlit("\n");
        }
        let ghost missing = strings_view(self.missing_vars@);
        let ghost invalid = pairs_view(self.invalid_vars@);
        let mut out = String::from_str("Configuration validation failed:\n");
        let ghost head = out@;
        if self.missing_vars.len() > 0 {
            out.append("Missing required environment variables:\n");
            let ghost start = out@;
            let mut i: usize = 0;
            assert(missing.subrange(0, 0) =~= Seq::<Seq<char>>::empty());
            while i < self.missing_vars.len()
                invariant
                    missing == strings_view(self.missing_vars@),
                    i <= self.missing_vars.len(),
                    out@ == start + missing_lines(missing.subrange(0, i as int)),
                decreases self.missing_vars.len() - i,
            {
                assert(missing.subrange(0, i + 1).drop_last() =~= missing.subrange(0, i as int));
                out.append("  - ");
                out.append(self.missing_vars[i].as_str());
                out.append("\n");
                i = i + 1;
                assert(out@ =~= start + missing_lines(missing.subrange(0, i as int)));
            }
            assert(missing.subrange(0, missing.len() as int) =~= missing);
        }
        let ghost mid = out@;
        if self.invalid_vars.len() > 0 {
            out.append("Invalid environment variables:\n");
            let ghost start = out@;
            let mut i: usize = 0;
            assert(invalid.subrange(0, 0) =~= Seq::<(Seq<char>, Seq<char>)>::empty());
            while i < self.invalid_vars.len()
                invariant
                    invalid == pairs_view(self.invalid_vars@),
                    i <= self.invalid_vars.len(),
                    out@ == start + invalid_lines(invalid.subrange(0, i as int)),
                decreases self.invalid_vars.len() - i,
            {
                assert(invalid.subrange(0, i + 1).drop_last() =~= invalid.subrange(0, i as int));
                out.append("  - ");
                out.append(self.invalid_vars[i].0.as_str());
                out.append(": ");
                out.append(self.invalid_vars[i].1.as_str());
                out.append("\n");
                i = i + 1;
                assert(out@ =~= start + invalid_lines(invalid.subrange(0, i as int)));
            }
            assert(invalid.subrange(0, invalid.len() as int) =~= invalid);
        }
        assert(out@ =~= config_error_text(missing, invalid));
        out
    }
}

} // verus!
