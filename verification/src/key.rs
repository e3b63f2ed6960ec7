//! Deriving the comparison key from a raw line.
//!
//! The key is what gets scored against the buffered keys; the raw line is
//! what gets emitted.  Four optional steps run in a fixed order — skip
//! leading fields, skip leading code points, truncate, fold case — and every
//! count is a count of Unicode code points, never of bytes.

use vstd::prelude::*;

verus! {

/// Options for turning a raw line into its comparison key.
#[derive(Clone, Copy, Debug)]
pub struct KeyConfig {
    /// Skip this many leading fields, and the one separator right after them.
    pub skip_fields: Option<usize>,
    /// Then drop this many leading code points.
    pub skip_chars: Option<usize>,
    /// Then keep no more than this many code points.
    pub check_chars: Option<usize>,
    /// Finally fold the text to lowercase.
    pub ignore_case: bool,
}

impl Default for KeyConfig {
    /// The configuration under which every line is its own key.
    fn default() -> (r: KeyConfig)
        ensures
            r.skip_fields is None,
            r.skip_chars is None,
            r.check_chars is None,
            !r.ignore_case,
    {
        KeyConfig { skip_fields: None, skip_chars: None, check_chars: None, ignore_case: false }
    }
}

/// A field separator: space or horizontal tab.
pub open spec fn is_separator(c: char) -> bool {
    c == ' ' || c == '\t'
}

/// The field-skipping scan, one code point at a time.  `fields` counts the
/// fields begun so far, `in_field` tells whether the previous code point
/// belonged to one.  The scan stops at the first separator seen once at
/// least `want` fields have begun and consumes that separator as well; a
/// line that runs out before then yields the empty text.
pub open spec fn fields_skipped_from(s: Seq<char>, want: int, fields: int, in_field: bool) -> Seq<char>
    decreases s.len(),
{
    if s.len() == 0 {
        Seq::empty()
    } else if is_separator(s[0]) {
        if fields < want {
            fields_skipped_from(s.drop_first(), want, fields, false)
        } else {
            s.drop_first()
        }
    } else if in_field {
        fields_skipped_from(s.drop_first(), want, fields, true)
    } else {
        fields_skipped_from(s.drop_first(), want, fields + 1, true)
    }
}

/// The text after skipping `want` leading fields.
pub open spec fn fields_skipped(s: Seq<char>, want: int) -> Seq<char> {
    fields_skipped_from(s, want, 0, false)
}

/// The text after dropping its first `n` code points; text with fewer than
/// `n` code points is left unchanged.
pub open spec fn chars_skipped(s: Seq<char>, n: int) -> Seq<char> {
    if s.len() < n {
        s
    } else {
        s.skip(n)
    }
}

/// The text cut down to its first `n` code points; text with no more than
/// `n` code points is left unchanged in full.
pub open spec fn chars_checked(s: Seq<char>, n: int) -> Seq<char> {
    if s.len() <= n {
        s
    } else {
        s.take(n)
    }
}

/// What `str::to_lowercase` returns, as a function of the code points alone.
pub uninterp spec fn lower_of(s: Seq<char>) -> Seq<char>;

/// Relies on `str::to_lowercase`: a Unicode-aware lowercase form of the
/// text, depending on the input's code points alone.
#[verifier::external_body]
fn lowercase(s: &str) -> (r: String)
    ensures
        r@ == lower_of(s@),
{
    s.to_lowercase()
}

/// The comparison key of `s`: fields skipped, then code points dropped,
/// then truncated, then case-folded — each step only when configured.
pub open spec fn key_of(s: Seq<char>, cfg: KeyConfig) -> Seq<char> {
    let t_fields = match cfg.skip_fields {
        Some(f) => fields_skipped(s, f as int),
        None => s,
    };
    let t_skip = match cfg.skip_chars {
        Some(n) => chars_skipped(t_fields, n as int),
        None => t_fields,
    };
    let t_check = match cfg.check_chars {
        Some(n) => chars_checked(t_skip, n as int),
        None => t_skip,
    };
    if cfg.ignore_case {
        lower_of(t_check)
    } else {
        t_check
    }
}

/// Derive the comparison key for `line`.
pub fn derive_key(line: &str, cfg: &KeyConfig) -> (r: String)
    ensures
        r@ == key_of(line@, *cfg),
{
    let n: usize = line.unicode_len();
    let mut start: usize = 0;

    match cfg.skip_fields {
        Some(want) => {
            proof {
                assert(line@.subrange(0, n as int) =~= line@);
            }
            let mut i: usize = 0;
            let mut fields: usize = 0;
            let mut in_field: bool = false;
            let mut stopped: bool = false;
            while i < n && !stopped
                invariant
                    i <= n,
                    n == line@.len(),
                    fields <= i,
                    !stopped ==> fields_skipped(line@, want as int) == fields_skipped_from(
                        line@.subrange(i as int, n as int),
                        want as int,
                        fields as int,
                        in_field,
                    ),
                    stopped ==> fields_skipped(line@, want as int) == line@.subrange(
                        i as int,
                        n as int,
                    ),
                decreases n - i,
            {
                let c: char = line.get_char(i);
                proof {
                    assert(line@.subrange(i as int, n as int)[0] == line@[i as int]);
                    assert(line@.subrange(i as int, n as int).drop_first() =~= line@.subrange(
                        i as int + 1,
                        n as int,
                    ));
                }
                if c == ' ' || c == '\t' {
                    if fields < want {
                        in_field = false;
                    } else {
                        stopped = true;
                    }
                } else {
                    if !in_field {
                        fields = fields + 1;
                        in_field = true;
                    }
                }
                i = i + 1;
            }
            if stopped {
                start = i;
            } else {
                proof {
                    assert(line@.subrange(n as int, n as int) =~= Seq::<char>::empty());
                }
                start = n;
            }
        }
        None => {
            proof {
                assert(line@.subrange(0, n as int) =~= line@);
            }
        }
    }
    let ghost t_fields = match cfg.skip_fields {
        Some(f) => fields_skipped(line@, f as int),
        None => line@,
    };
    assert(t_fields == line@.subrange(start as int, n as int));

    match cfg.skip_chars {
        Some(nskip) => {
            if n - start >= nskip {
                proof {
                    assert(line@.subrange(start as int, n as int).skip(nskip as int) =~= line@
                        .subrange(start as int + nskip as int, n as int));
                }
                start = start + nskip;
            }
        }
        None => {}
    }
    let ghost t_skip = match cfg.skip_chars {
        Some(k) => chars_skipped(t_fields, k as int),
        None => t_fields,
    };
    assert(t_skip == line@.subrange(start as int, n as int));

    let mut end: usize = n;
    match cfg.check_chars {
        Some(keep) => {
            if n - start > keep {
                proof {
                    assert(line@.subrange(start as int, n as int).take(keep as int) =~= line@
                        .subrange(start as int, start as int + keep as int));
                }
                end = start + keep;
            }
        }
        None => {}
    }
    let ghost t_check = match cfg.check_chars {
        Some(k) => chars_checked(t_skip, k as int),
        None => t_skip,
    };
    assert(t_check == line@.subrange(start as int, end as int));

    let mid: &str = line.substring_char(start, end);
    if cfg.ignore_case {
        lowercase(mid)
    } else {
        String::from_str(mid)
    }
}

} // verus!
