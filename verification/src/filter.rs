//! Orchestration of the stream: derive a key, consult the buffer, decide
//! whether the raw line is emitted, and number it when requested.

use vstd::prelude::*;

use crate::buffer::Fzq;
use crate::buffer::buffer_after;
use crate::buffer::has_match;
use crate::key::KeyConfig;
use crate::key::derive_key;
use crate::key::key_of;
use crate::metric::Metric;

verus! {

/// The decimal digit character for `d`.
pub open spec fn digit_char(d: int) -> char {
    if d == 0 {
        '0'
    } else if d == 1 {
        '1'
    } else if d == 2 {
        '2'
    } else if d == 3 {
        '3'
    } else if d == 4 {
        '4'
    } else if d == 5 {
        '5'
    } else if d == 6 {
        '6'
    } else if d == 7 {
        '7'
    } else if d == 8 {
        '8'
    } else {
        '9'
    }
}

/// The decimal representation of `n`, most significant digit first, with no
/// leading zeros (a single zero for 0).
pub open spec fn decimal(n: nat) -> Seq<char>
    decreases n,
{
    if n < 10 {
        seq![digit_char(n as int)]
    } else {
        decimal(n / 10) + seq![digit_char((n % 10) as int)]
    }
}

fn digit_str(d: usize) -> (r: &'static str)
    requires
        d < 10,
    ensures
        r@ == seq![digit_char(d as int)],
{
    if d == 0 {
        proof {
            reveal_strlit("0");
            assert("0"@ =~= seq![digit_char(d as int)]);
        }
        "0"
    } else if d == 1 {
        proof {
            reveal_strlit("1");
            assert("1"@ =~= seq![digit_char(d as int)]);
        }
        "1"
    } else if d == 2 {
        proof {
            reveal_strlit("2");
            assert("2"@ =~= seq![digit_char(d as int)]);
        }
        "2"
    } else if d == 3 {
        proof {
            reveal_strlit("3");
            assert("3"@ =~= seq![digit_char(d as int)]);
        }
        "3"
    } else if d == 4 {
        proof {
            reveal_strlit("4");
            assert("4"@ =~= seq![digit_char(d as int)]);
        }
        "4"
    } else if d == 5 {
        proof {
            reveal_strlit("5");
            assert("5"@ =~= seq![digit_char(d as int)]);
        }
        "5"
    } else if d == 6 {
        proof {
            reveal_strlit("6");
            assert("6"@ =~= seq![digit_char(d as int)]);
        }
        "6"
    } else if d == 7 {
        proof {
            reveal_strlit("7");
            assert("7"@ =~= seq![digit_char(d as int)]);
        }
        "7"
    } else if d == 8 {
        proof {
            reveal_strlit("8");
            assert("8"@ =~= seq![digit_char(d as int)]);
        }
        "8"
    } else {
        proof {
            reveal_strlit("9");
            assert("9"@ =~= seq![digit_char(d as int)]);
        }
        "9"
    }
}

/// Render `n` in decimal.
pub fn decimal_string(n: usize) -> (r: String)
    ensures
        r@ == decimal(n as nat),
{
    let mut m: usize = n;
    let mut tail: String = String::from_str("");
    proof {
        reveal_strlit("");
        assert(decimal(n as nat) =~= decimal(n as nat) + ""@);
    }
    while m >= 10
        invariant
            decimal(n as nat) == decimal(m as nat) + tail@,
        decreases m,
    {
        let ghost tail0 = tail@;
        let d: usize = m % 10;
        let mut piece = String::from_str(digit_str(d));
        piece.append(tail.as_str());
        tail = piece;
        proof {
            assert(decimal(m as nat) == decimal((m / 10) as nat) + seq![
                digit_char((m % 10) as int),
            ]);
            assert(decimal((m / 10) as nat) + (seq![digit_char(d as int)] + tail0) =~= decimal(
                m as nat,
            ) + tail0);
        }
        m = m / 10;
    }
    let mut out = String::from_str(digit_str(m));
    out.append(tail.as_str());
    proof {
        assert(out@ =~= decimal(n as nat));
    }
    out
}

/// Whether a line is emitted: novel lines by default, only the similar
/// ones when `show_similar` is set.
pub open spec fn emits(similar: bool, show_similar: bool) -> bool {
    similar == show_similar
}

/// The text emitted for `line` at the 1-based `position` when numbering is
/// requested.
pub open spec fn numbered(position: nat, line: Seq<char>) -> Seq<char> {
    decimal(position) + seq![':'] + line
}

/// Streams raw lines through key derivation, the similarity buffer, and the
/// emit decision.  The caller scores each derived key against the buffered
/// keys and hands the verdicts to [`StreamFilter::step`].
pub struct StreamFilter {
    fzq: Fzq,
    cfg: KeyConfig,
    show_similar: bool,
    line_number: bool,
    position: usize,
}

impl StreamFilter {
    /// The buffered comparison keys, most recent first.
    pub closed spec fn keys(self) -> Seq<Seq<char>> {
        self.fzq.keys()
    }

    /// The buffer's capacity.
    pub closed spec fn capacity(self) -> nat {
        self.fzq.capacity()
    }

    /// The metric selector of the underlying buffer.
    pub closed spec fn chosen_metric(self) -> Metric {
        self.fzq.chosen_metric()
    }

    /// The key-derivation options.
    pub closed spec fn key_config(self) -> KeyConfig {
        self.cfg
    }

    /// Whether the filter emits the similar lines instead of the novel ones.
    pub closed spec fn shows_similar(self) -> bool {
        self.show_similar
    }

    /// Whether emitted lines carry their 1-based position.
    pub closed spec fn numbers_lines(self) -> bool {
        self.line_number
    }

    /// The 1-based position the next line will have.
    pub closed spec fn next_position(self) -> nat {
        self.position as nat
    }

    /// Capacity invariant of the underlying buffer.
    pub open spec fn wf(self) -> bool {
        self.keys().len() <= self.capacity()
    }

    /// Wrap a configured buffer; the first processed line is number 1.
    pub fn new(fzq: Fzq, cfg: KeyConfig, show_similar: bool, line_number: bool) -> (r: StreamFilter)
        ensures
            r.keys() == fzq.keys(),
            r.capacity() == fzq.capacity(),
            r.chosen_metric() == fzq.chosen_metric(),
            r.key_config() == cfg,
            r.shows_similar() == show_similar,
            r.numbers_lines() == line_number,
            r.next_position() == 1,
    {
        StreamFilter { fzq, cfg, show_similar, line_number, position: 1 }
    }

    /// The comparison key this filter derives for `line`.
    pub fn derive(&self, line: &str) -> (r: String)
        ensures
            r@ == key_of(line@, self.key_config()),
    {
        derive_key(line, &self.cfg)
    }

    /// The buffered keys, most recent first, for the caller to score.
    pub fn buffered(&self) -> (r: &Vec<String>)
        ensures
            r@.len() == self.keys().len(),
            forall|i: int| 0 <= i < r@.len() ==> (#[trigger] r@[i])@ == self.keys()[i],
    {
        self.fzq.buffered()
    }

    /// The metric the caller is to evaluate.
    pub fn current_metric(&self) -> (r: Metric)
        ensures
            r == self.chosen_metric(),
    {
        self.fzq.current_metric()
    }

    /// Process one raw line.
    ///
    /// `sims[i]` is the caller's verdict for the pair of this line's derived
    /// key and the `i`-th buffered key.  The buffer is updated as by
    /// [`Fzq::is_similar`]; the raw line — never the key — is returned iff
    /// the filter's polarity says to emit it, prefixed with
    /// `"<position>:"` when numbering is requested.
    pub fn step(&mut self, line: &str, sims: &Vec<bool>) -> (out: Option<String>)
        requires
            sims@.len() == old(self).keys().len(),
            old(self).next_position() < usize::MAX,
        ensures
            final(self).keys() == buffer_after(
                old(self).keys(),
                sims@,
                key_of(line@, old(self).key_config()),
                old(self).capacity(),
            ),
            final(self).wf(),
            final(self).capacity() == old(self).capacity(),
            final(self).chosen_metric() == old(self).chosen_metric(),
            final(self).key_config() == old(self).key_config(),
            final(self).shows_similar() == old(self).shows_similar(),
            final(self).numbers_lines() == old(self).numbers_lines(),
            final(self).next_position() == old(self).next_position() + 1,
            out is Some <==> emits(has_match(sims@), old(self).shows_similar()),
            out matches Some(t) ==> t@ == if old(self).numbers_lines() {
                numbered(old(self).next_position(), line@)
            } else {
                line@
            },
    {
        let key = derive_key(line, &self.cfg);
        let similar = self.fzq.is_similar(key.as_str(), sims);
        let pos: usize = self.position;
        self.position = self.position + 1;
        if similar == self.show_similar {
            if self.line_number {
                let mut r = decimal_string(pos);
                r.append(":");
                r.append(line);
                proof {
                    reveal_strlit(":");
                    assert(r@ =~= numbered(pos as nat, line@));
                }
                Some(r)
            } else {
                Some(String::from_str(line))
            }
        } else {
            None
        }
    }
}

} // verus!
