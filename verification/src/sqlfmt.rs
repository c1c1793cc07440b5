//! Escaping of free-text values for SQL statements.
//!
//! Instrument names may hold quotes, backslashes and control
//! characters; each such character is replaced by a backslash escape
//! before the value is spliced into a statement.

use vstd::prelude::*;

verus! {

/// What one character escapes to.
pub open spec fn escape_char(c: char) -> Seq<char> {
    if c == '\\' {
        seq!['\\', '\\']
    } else if c == '\'' {
        seq!['\\', '\'']
    } else if c == '?' {
        seq!['\\', '?']
    } else if c == '"' {
        seq!['\\', '"']
    } else if c == '\n' {
        seq!['\\', 'n']
    } else if c == '\r' {
        seq!['\\', 'r']
    } else if c == '\t' {
        seq!['\\', 't']
    } else if c == '\0' {
        seq!['\\', '0']
    } else {
        seq![c]
    }
}

/// A string escaped character by character.
pub open spec fn escape_seq(s: Seq<char>) -> Seq<char>
    decreases s.len(),
{
    if s.len() == 0 {
        Seq::empty()
    } else {
        escape_seq(s.drop_last()) + escape_char(s.last())
    }
}

/// Escapes backslashes, quotes, question marks and control characters
/// for splicing into a SQL statement.
pub fn escape_string_max(s: &str) -> (r: String)
    ensures
        r@ == escape_seq(s@),
{
    let n = s.unicode_len();
    let mut out = String::new();
    let mut i: usize = 0;
    proof {
        reveal_strlit("\\\\");
        reveal_strlit("\\'");
        reveal_strlit("\\?");
        reveal_strlit("\\\"");
        reveal_strlit("\\n");
        reveal_strlit("\\r");
        reveal_strlit("\\t");
        reveal_strlit("\\0");
    }
    while i < n
        invariant
            0 <= i <= n,
            n == s@.len(),
            out@ == escape_seq(s@.take(i as int)),
        decreases n - i,
    {
        proof {
            assert(s@.take(i as int + 1).drop_last() =~= s@.take(i as int));
            assert(s@.take(i as int + 1).last() == s@[i as int]);
            reveal_strlit("\\\\");
            reveal_strlit("\\'");
            reveal_strlit("\\?");
            reveal_strlit("\\\"");
            reveal_strlit("\\n");
            reveal_strlit("\\r");
            reveal_strlit("\\t");
            reveal_strlit("\\0");
        }
        let c = s.get_char(i);
        if c == '\\' {
            proof {
                assert("\\\\"@ =~= escape_char(c));
            }
            out.append("\\\\");
        } else if c == '\'' {
            proof {
                assert("\\'"@ =~= escape_char(c));
            }
            out.append("\\'");
        } else if c == '?' {
            proof {
                assert("\\?"@ =~= escape_char(c));
            }
            out.append("\\?");
        } else if c == '"' {
            proof {
                assert("\\\""@ =~= escape_char(c));
            }
            out.append("\\\"");
        } else if c == '\n' {
            proof {
                assert("\\n"@ =~= escape_char(c));
            }
            out.append("\\n");
        } else if c == '\r' {
            proof {
                assert("\\r"@ =~= escape_char(c));
            }
            out.append("\\r");
        } else if c == '\t' {
            proof {
                assert("\\t"@ =~= escape_char(c));
            }
            out.append("\\t");
        } else if c == '\0' {
            proof {
                assert("\\0"@ =~= escape_char(c));
            }
            out.append("\\0");
        } else {
            let piece = s.substring_char(i, i + 1);
            proof {
                assert(piece@ =~= escape_char(c));
            }
            out.append(piece);
        }
        i = i + 1;
    }
    proof {
        assert(s@.take(n as int) =~= s@);
    }
    out
}

} // verus!
