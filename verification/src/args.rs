//! The configuration grammar: `<width-spec>[, exhaustive: <value>]`, scanned
//! token by token. A comma clears "awaiting a value", a colon is consumed
//! silently, a width identifier sets the bit width (last occurrence wins),
//! `exhaustive` begins awaiting its value, and any token seen while awaiting
//! is captured as that value.

use vstd::prelude::*;

use crate::model::{ArgToken, ArgTokenView, BitenumError, Config, ErrorView, Exhaustiveness};
use crate::numeral::{all_digits, numeral_value, parse_digits};
use crate::text::{chars_of, copy_str, str_eq};

verus! {

/// The scan's running state: the width seen so far, the captured
/// exhaustiveness token, and whether a value is awaited.
pub struct ArgScan {
    pub bits: Option<nat>,
    pub exh: Option<Seq<char>>,
    pub awaiting: bool,
}

/// The state before any token is read.
pub open spec fn initial_scan() -> ArgScan {
    ArgScan { bits: None, exh: None, awaiting: false }
}

/// The width a lone identifier denotes: `u` followed by decimal digits whose
/// value lies in `[1, 64]`.
pub open spec fn width_of_ident(s: Seq<char>) -> Option<nat> {
    if s.len() >= 2 && s[0] == 'u' && all_digits(s.skip(1), 10) && 1 <= numeral_value(s.skip(1), 10)
        <= 64 {
        Some(numeral_value(s.skip(1), 10))
    } else {
        None
    }
}

/// One step of the scan.
pub open spec fn arg_step(st: ArgScan, t: ArgTokenView) -> Result<ArgScan, ErrorView> {
    match t {
        ArgTokenView::Punct(c) => if c == ',' {
            Ok(ArgScan { awaiting: false, ..st })
        } else if c == ':' {
            Ok(st)
        } else {
            Err(ErrorView::UnexpectedPunct(c))
        },
        ArgTokenView::Ident(s) => if st.awaiting {
            Ok(ArgScan { exh: Some(s), ..st })
        } else if s == "exhaustive"@ {
            if st.exh is Some {
                Err(ErrorView::ExhaustiveTwice)
            } else {
                Ok(ArgScan { awaiting: true, ..st })
            }
        } else {
            match width_of_ident(s) {
                Some(w) => Ok(ArgScan { bits: Some(w), ..st }),
                None => Err(ErrorView::UnexpectedArgument(s)),
            }
        },
        ArgTokenView::Literal(s) => if st.awaiting {
            Ok(ArgScan { exh: Some(s), ..st })
        } else {
            Err(ErrorView::StrayValue(s))
        },
        ArgTokenView::Other => Err(ErrorView::UnexpectedToken),
    }
}

/// The scan over a whole token sequence, first error wins.
pub open spec fn scan_args(ts: Seq<ArgTokenView>) -> Result<ArgScan, ErrorView>
    decreases ts.len(),
{
    if ts.len() == 0 {
        Ok(initial_scan())
    } else {
        match scan_args(ts.drop_last()) {
            Err(e) => Err(e),
            Ok(st) => arg_step(st, ts.last()),
        }
    }
}

/// The exhaustiveness mode the captured token names; absence reads as not
/// exhaustive.
pub open spec fn exhaustiveness_of(tok: Option<Seq<char>>) -> Result<Exhaustiveness, ErrorView> {
    match tok {
        None => Ok(Exhaustiveness::False),
        Some(s) => if s == "true"@ {
            Ok(Exhaustiveness::True)
        } else if s == "false"@ {
            Ok(Exhaustiveness::False)
        } else if s == "conditional"@ {
            Ok(Exhaustiveness::Conditional)
        } else {
            Err(ErrorView::BadExhaustiveValue(s))
        },
    }
}

/// What the whole argument list yields: a configuration record, or the first
/// error. A missing width is reported before a bad exhaustiveness value.
pub open spec fn parse_args_spec(ts: Seq<ArgTokenView>) -> Result<Config, ErrorView> {
    match scan_args(ts) {
        Err(e) => Err(e),
        Ok(st) => match st.bits {
            None => Err(ErrorView::MissingWidth),
            Some(w) => match exhaustiveness_of(st.exh) {
                Err(e) => Err(e),
                Ok(ex) => Ok(Config { bit_width: w as u8, exhaustiveness: ex }),
            },
        },
    }
}

/// If the scan is still clean before token `i` and that token steps to an
/// error, the whole scan yields that error.
proof fn lemma_scan_err(ts: Seq<ArgTokenView>, i: int, st: ArgScan, e: ErrorView)
    requires
        0 <= i < ts.len(),
        scan_args(ts.take(i)) == Ok::<ArgScan, ErrorView>(st),
        arg_step(st, ts[i]) == Err::<ArgScan, ErrorView>(e),
    ensures
        scan_args(ts) == Err::<ArgScan, ErrorView>(e),
    decreases ts.len(),
{
    if ts.len() == i + 1 {
        assert(ts.take(i) =~= ts.drop_last());
        assert(ts.last() == ts[i]);
    } else {
        assert(ts.drop_last().take(i) =~= ts.take(i));
        assert(ts.drop_last()[i] == ts[i]);
        lemma_scan_err(ts.drop_last(), i, st, e);
    }
}

/// The exec image of the scan state.
pub open spec fn scan_state(bits: Option<u8>, exh: Option<String>, awaiting: bool) -> ArgScan {
    ArgScan {
        bits: match bits {
            Some(b) => Some(b as nat),
            None => None,
        },
        exh: match exh {
            Some(s) => Some(s@),
            None => None,
        },
        awaiting: awaiting,
    }
}

/// The width an identifier denotes, if any.
pub fn ident_width(s: &String) -> (r: Option<u8>)
    ensures
        match r {
            Some(w) => width_of_ident(s@) == Some(w as nat) && 1 <= w <= 64,
            None => width_of_ident(s@) is None,
        },
{
    let cs = chars_of(s.as_str());
    if cs.len() >= 2 && cs[0] == 'u' {
        proof {
            assert(s@.skip(1) =~= cs@.subrange(1, cs@.len() as int));
        }
        match parse_digits(&cs, 1, 10) {
            Some(n) => if 1 <= n && n <= 64 {
                Some(n as u8)
            } else {
                None
            },
            None => None,
        }
    } else {
        None
    }
}

/// Turns the configuration token sequence into a configuration record, or the
/// first error the grammar detects.
pub fn parse_args(args: &Vec<ArgToken>) -> (r: Result<Config, BitenumError>)
    ensures
        match r {
            Ok(c) => parse_args_spec(args.deep_view()) == Ok::<Config, ErrorView>(c) && 1
                <= c.bit_width <= 64,
            Err(e) => parse_args_spec(args.deep_view()) == Err::<Config, ErrorView>(e@),
        },
{
    let ghost ts = args.deep_view();
    let mut bits: Option<u8> = None;
    let mut exh: Option<String> = None;
    let mut awaiting = false;
    let mut i: usize = 0;
    while i < args.len()
        invariant
            ts == args.deep_view(),
            ts.len() == args@.len(),
            0 <= i <= args@.len(),
            scan_args(ts.take(i as int)) == Ok::<ArgScan, ErrorView>(
                scan_state(bits, exh, awaiting),
            ),
            bits matches Some(b) ==> 1 <= b <= 64,
        decreases args@.len() - i,
    {
        let ghost st0 = scan_state(bits, exh, awaiting);
        proof {
            assert(ts.take(i as int + 1).drop_last() =~= ts.take(i as int));
            assert(ts.take(i as int + 1).last() == ts[i as int]);
            assert(ts[i as int] == args@[i as int].deep_view());
        }
        match &args[i] {
            ArgToken::Punct(c) => {
                if *c == ',' {
                    awaiting = false;
                } else if *c == ':' {
                } else {
                    proof {
                        lemma_scan_err(ts, i as int, st0, ErrorView::UnexpectedPunct(*c));
                    }
                    return Err(BitenumError::UnexpectedPunct(*c));
                }
            },
            ArgToken::Ident(s) => {
                if awaiting {
                    exh = Some(copy_str(s.as_str()));
                } else if str_eq(s.as_str(), "exhaustive") {
                    if exh.is_some() {
                        proof {
                            lemma_scan_err(ts, i as int, st0, ErrorView::ExhaustiveTwice);
                        }
                        return Err(BitenumError::ExhaustiveTwice);
                    }
                    awaiting = true;
                } else {
                    match ident_width(s) {
                        Some(w) => {
                            bits = Some(w);
                        },
                        None => {
                            proof {
                                lemma_scan_err(ts, i as int, st0, ErrorView::UnexpectedArgument(s@));
                            }
                            return Err(BitenumError::UnexpectedArgument(copy_str(s.as_str())));
                        },
                    }
                }
            },
            ArgToken::Literal(s) => {
                if awaiting {
                    exh = Some(copy_str(s.as_str()));
                } else {
                    proof {
                        lemma_scan_err(ts, i as int, st0, ErrorView::StrayValue(s@));
                    }
                    return Err(BitenumError::StrayValue(copy_str(s.as_str())));
                }
            },
            ArgToken::Other => {
                proof {
                    lemma_scan_err(ts, i as int, st0, ErrorView::UnexpectedToken);
                }
                return Err(BitenumError::UnexpectedToken);
            },
        }
        i += 1;
    }
    proof {
        assert(ts.take(ts.len() as int) =~= ts);
    }
    let bw: u8 = match bits {
        Some(b) => b,
        None => {
            return Err(BitenumError::MissingWidth);
        },
    };
    let ex: Exhaustiveness = match &exh {
        None => Exhaustiveness::False,
        Some(s) => {
            if str_eq(s.as_str(), "true") {
                Exhaustiveness::True
            } else if str_eq(s.as_str(), "false") {
                Exhaustiveness::False
            } else if str_eq(s.as_str(), "conditional") {
                Exhaustiveness::Conditional
            } else {
                return Err(BitenumError::BadExhaustiveValue(copy_str(s.as_str())));
            }
        },
    };
    Ok(Config { bit_width: bw, exhaustiveness: ex })
}

} // verus!
