//! Recovering a byte range from the debug rendering of a compiler span:
//! text shaped like an opener, a byte offset, two dots, a second byte
//! offset and a closing parenthesis, with anything before the opening
//! parenthesis ignored.

use vstd::prelude::*;

use crate::json::{spec_parse_number, parse_number_at};
use crate::strutil::str_chars;

verus! {

/// The input after the first opening parenthesis, when there is one.
pub open spec fn spec_skip_to_open(s: Seq<char>) -> Option<Seq<char>>
    decreases s.len(),
{
    if s.len() == 0 {
        None
    } else if s[0] == '(' {
        Some(s.drop_first())
    } else {
        spec_skip_to_open(s.drop_first())
    }
}

/// The byte range written in a span's debug text: the first parenthesis
/// opens it, a decimal offset, two dots, a second decimal offset and a
/// closing parenthesis follow; each offset must fit the platform's byte
/// offsets.  Anything else is a parse failure.
pub open spec fn spec_parse_span(s: Seq<char>) -> Option<(usize, usize)> {
    match spec_skip_to_open(s) {
        None => None,
        Some(t) => match spec_parse_number(t) {
            None => None,
            Some((a, r)) => {
                if a > usize::MAX as u64 {
                    None
                } else if r.len() == 0 || r[0] != '.' {
                    None
                } else {
                    let r1 = r.drop_first();
                    if r1.len() == 0 || r1[0] != '.' {
                        None
                    } else {
                        match spec_parse_number(r1.drop_first()) {
                            None => None,
                            Some((b, r2)) => {
                                if b > usize::MAX as u64 {
                                    None
                                } else if r2.len() == 0 || r2[0] != ')' {
                                    None
                                } else {
                                    Some((a as usize, b as usize))
                                }
                            },
                        }
                    }
                }
            },
        },
    }
}

/// Walks a span's debug text: skips to the opening parenthesis, reads the
/// start offset, the two dots, the end offset and the closing parenthesis.
/// The breadcrumb names the stage a failure happened in.
pub struct SpanDebugParser {
    pub curr: char,
    pub during: Option<&'static str>,
}

impl SpanDebugParser {
    /// Parses the byte range out of a span's debug text, leaving a
    /// breadcrumb of the stage reached.
    #[verifier::loop_isolation(false)]
    pub fn parse(&mut self, span: &str) -> (r: Option<(usize, usize)>)
        ensures
            r == spec_parse_span(span@),
    {
        self.during = Some("start");
        let chars = str_chars(span);
        let n: usize = chars.len();
        self.during = Some("skipping opener");
        let mut i: usize = 0;
        proof {
            assert(chars@.skip(0) =~= chars@);
        }
        while i < n
            invariant
                0 <= i <= n,
                n == chars@.len(),
                spec_skip_to_open(chars@) == spec_skip_to_open(chars@.skip(i as int)),
            decreases n - i,
        {
            proof {
                assert(chars@.skip(i as int)[0] == chars@[i as int]);
                assert(chars@.skip(i as int).drop_first() =~= chars@.skip(i + 1));
            }
            if chars[i] == '(' {
                break ;
            }
            i = i + 1;
        }
        if i == n {
            proof {
                assert(chars@.skip(n as int).len() == 0);
            }
            return None;
        }
        let ghost t = chars@.skip(i + 1);
        proof {
            assert(chars@.skip(i as int)[0] == chars@[i as int]);
            assert(chars@.skip(i as int).drop_first() =~= chars@.skip(i + 1));
            assert(spec_skip_to_open(chars@) == Some(t));
        }
        self.during = Some("parsing first byte");
        self.curr = chars[i];
        let (a, j) = match parse_number_at(&chars, i + 1) {
            Ok(p) => p,
            Err(()) => {
                self.during = Some("start_byte non-digit");
                return None;
            },
        };
        if a > usize::MAX as u64 {
            return None;
        }
        if j == n || !(chars[j] == '.') {
            self.during = Some("start_byte non-digit");
            return None;
        }
        proof {
            assert(chars@.skip(j as int)[0] == chars@[j as int]);
        }
        self.during = Some("found .");
        if j + 1 == n || !(chars[j + 1] == '.') {
            self.during = Some("expected second .");
            return None;
        }
        proof {
            assert(chars@.skip(j as int).drop_first() =~= chars@.skip(j + 1));
            assert(chars@.skip(j + 1)[0] == chars@[j + 1]);
            assert(chars@.skip(j + 1).drop_first() =~= chars@.skip(j + 2));
        }
        self.during = Some("parsing second byte index");
        let (b, k) = match parse_number_at(&chars, j + 2) {
            Ok(p) => p,
            Err(()) => {
                self.during = Some("end_byte non-digit");
                return None;
            },
        };
        if b > usize::MAX as u64 {
            return None;
        }
        if k == n || !(chars[k] == ')') {
            self.during = Some("end_byte non-digit");
            return None;
        }
        proof {
            assert(chars@.skip(k as int)[0] == chars@[k as int]);
        }
        self.during = Some("parsing end bytes");
        Some((a as usize, b as usize))
    }
}

/// Parses the byte range out of a span's debug text, or reports which
/// stage of the walk failed and at which character.
pub fn parse_span(span: &str) -> (r: Result<(usize, usize), String>)
    ensures
        (match r {
            Ok(p) => spec_parse_span(span@) == Some(p),
            Err(_) => spec_parse_span(span@) is None,
        }),
{
    let mut parser = SpanDebugParser { during: None, curr: '\0' };
    match parser.parse(span) {
        Some(found) => Ok(found),
        None => {
            let mut msg = String::new();
            msg.append("failed to parse bytes of span (");
            msg.append(span);
            msg.append(") error during: ");
            match parser.during {
                Some(stage) => msg.append(stage),
                None => msg.append("start"),
            }
            Err(msg)
        },
    }
}

} // verus!
