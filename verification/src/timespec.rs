//! The time-spec grammar and its parser.
//!
//! A time-spec string gives one bound of the recording window.  It is either
//! an absolute wall-clock time of day written with colons (`H[:M[:S]]`), or a
//! signed offset from a solar anchor written as one or more magnitudes each
//! with an optional unit letter (`s`, `m`, `h`; a bare magnitude means
//! minutes), such as `-1h20m`.  Scanning is left to right: each digit
//! extends the magnitude under construction, a sign may only start one, and
//! a unit letter or colon closes it.  A magnitude that is a bare sign or
//! does not fit in 32 bits, and an absolute field outside its range, are
//! configuration mistakes and parse errors, never silently defaulted.  Once
//! the running relative sum is negative, every later unsigned magnitude
//! drives it further from zero rather than back toward it, so `-1h20m` is
//! -4800 seconds, not -2400.

use vstd::prelude::*;

verus! {

/// One bound of the recording window: a wall-clock time of day, or a signed
/// offset in seconds from the relevant solar anchor event.
#[derive(Clone, Copy, PartialEq, Eq, Structural, Debug)]
pub enum AbsRelTime {
    Absolute { hour: u8, minute: u8 },
    Relative { offset_seconds: i32 },
}

/// Why a time-spec string was rejected.
#[derive(Clone, Copy, PartialEq, Eq, Structural, Debug)]
pub enum ParseError {
    /// The string holds no token at all, or a token is garbage: a bare sign
    /// with no digits, a number that does not fit in 32 bits, or an absolute
    /// field outside its range.
    Empty,
    /// A unit letter appeared before any digits.
    UnitBeforeDigit,
    /// A colon appeared before any digits.
    ColonBeforeDigit,
    /// A character outside the grammar's alphabet.
    UnexpectedCharacter(char),
}

/// A bound reduced to `(is_absolute, offset_seconds)`.  An absolute bound
/// becomes its wall-clock seconds past midnight shifted into UTC by the
/// caller's UTC offset and normalized into `[0, 86400)`; a relative bound
/// passes its offset through unchanged.
pub open spec fn spec_time_offset(t: AbsRelTime, utc_offset_seconds: int) -> (bool, int) {
    match t {
        AbsRelTime::Absolute { hour, minute } => (
            true,
            (hour * 3600 + minute * 60 - utc_offset_seconds) % 86400,
        ),
        AbsRelTime::Relative { offset_seconds } => (false, offset_seconds as int),
    }
}

impl AbsRelTime {
    /// An absolute bound names a real time of day.
    pub open spec fn wf(self) -> bool {
        match self {
            AbsRelTime::Absolute { hour, minute } => hour < 24 && minute < 60,
            AbsRelTime::Relative { .. } => true,
        }
    }

    /// This bound as `(is_absolute, offset_seconds)`: an absolute time of
    /// day as UTC seconds past midnight, normalized into `[0, 86400)`; a
    /// relative bound as its signed anchor offset.
    pub fn time_offset(&self, utc_offset_seconds: i32) -> (r: (bool, i32))
        ensures
            r.0 == spec_time_offset(*self, utc_offset_seconds as int).0,
            r.1 as int == spec_time_offset(*self, utc_offset_seconds as int).1,
            r.0 ==> 0 <= r.1 < 86400,
    {
        match self {
            AbsRelTime::Absolute { hour, minute } => {
                let seconds_past_midnight: i64 = (*hour as i64) * 3600 + (*minute as i64) * 60;
                let diff: i64 = seconds_past_midnight - (utc_offset_seconds as i64);
                let rem: i64 = if diff >= 0 {
                    diff % 86400
                } else {
                    let backward: i64 = (-diff) % 86400;
                    if backward == 0 {
                        0
                    } else {
                        86400 - backward
                    }
                };
                (true, rem as i32)
            },
            AbsRelTime::Relative { offset_seconds } => (false, *offset_seconds),
        }
    }
}

// ---------------------------------------------------------------------------
// The token model.  A token is a maximal run of signs and digits together
// with the unit letter or colon that closed it.  `relative` records whether
// the token belongs to the relative (unit-letter) form or the absolute
// (colon) form.
// ---------------------------------------------------------------------------

pub ghost struct SpecToken {
    pub text: Seq<char>,
    pub unit: Option<char>,
    pub relative: bool,
}

pub open spec fn is_digit_char(c: char) -> bool {
    48 <= c as u32 && c as u32 <= 57
}

pub open spec fn is_digit_or_sign(c: char) -> bool {
    c == '-' || c == '+' || is_digit_char(c)
}

pub open spec fn is_unit_letter(c: char) -> bool {
    c == 's' || c == 'h' || c == 'm' || c == 'z'
}

/// One step of tokenisation: the effect of the next character on the token
/// list built so far.  An error is final.
pub open spec fn tokenize_step(
    state: Result<Seq<SpecToken>, ParseError>,
    c: char,
) -> Result<Seq<SpecToken>, ParseError> {
    match state {
        Err(e) => Err(e),
        Ok(toks) => {
            if is_digit_or_sign(c) {
                if toks.len() > 0 {
                    let last = toks.last();
                    if (c == '-' || c == '+') && last.text.len() > 0 {
                        Err(ParseError::UnexpectedCharacter(c))
                    } else {
                        Ok(
                            toks.update(
                                toks.len() - 1,
                                SpecToken { text: last.text.push(c), unit: last.unit, relative: last.relative },
                            ),
                        )
                    }
                } else {
                    Ok(seq![SpecToken { text: seq![c], unit: None, relative: true }])
                }
            } else if is_unit_letter(c) {
                if toks.len() == 0 {
                    Err(ParseError::UnitBeforeDigit)
                } else {
                    let last = toks.last();
                    Ok(
                        toks.update(
                            toks.len() - 1,
                            SpecToken { text: last.text, unit: Some(c), relative: last.relative },
                        ).push(SpecToken { text: Seq::empty(), unit: None, relative: true }),
                    )
                }
            } else if c == ':' {
                if toks.len() == 0 {
                    Err(ParseError::ColonBeforeDigit)
                } else {
                    let n = toks.len();
                    let last = toks.last();
                    let closing_unit = if n == 1 {
                        Some('h')
                    } else if n == 2 {
                        Some('m')
                    } else if n == 3 {
                        Some('s')
                    } else {
                        last.unit
                    };
                    let opened_unit = if n == 1 {
                        Some('m')
                    } else if n == 2 {
                        Some('s')
                    } else {
                        None
                    };
                    Ok(
                        toks.update(
                            n - 1,
                            SpecToken { text: last.text, unit: closing_unit, relative: false },
                        ).push(SpecToken { text: Seq::empty(), unit: opened_unit, relative: false }),
                    )
                }
            } else {
                Err(ParseError::UnexpectedCharacter(c))
            }
        },
    }
}

/// Tokenisation of a whole string, folding `tokenize_step` left to right.
pub open spec fn spec_tokenize(s: Seq<char>) -> Result<Seq<SpecToken>, ParseError>
    decreases s.len(),
{
    if s.len() == 0 {
        Ok(Seq::empty())
    } else {
        tokenize_step(spec_tokenize(s.drop_last()), s.last())
    }
}

// ---------------------------------------------------------------------------
// Magnitudes.  A token's text is read as a decimal integer with one optional
// leading sign.  The tokeniser only ever builds texts of that shape, so a
// non-empty text with no magnitude is a bare sign or a number beyond 32
// bits: garbage, which reduction rejects.
// ---------------------------------------------------------------------------

pub open spec fn all_digits(s: Seq<char>) -> bool {
    forall|i: int| 0 <= i < s.len() ==> is_digit_char(s[i])
}

pub open spec fn digits_value(s: Seq<char>) -> int
    decreases s.len(),
{
    if s.len() == 0 {
        0
    } else {
        digits_value(s.drop_last()) * 10 + (s.last() as u32 - 48)
    }
}

pub open spec fn spec_parse_i32(s: Seq<char>) -> Option<i32> {
    let (negative, magnitude) = if s.len() > 0 && s[0] == '-' {
        (true, s.drop_first())
    } else if s.len() > 0 && s[0] == '+' {
        (false, s.drop_first())
    } else {
        (false, s)
    };
    if magnitude.len() == 0 || !all_digits(magnitude) {
        None
    } else {
        let v = if negative {
            -digits_value(magnitude)
        } else {
            digits_value(magnitude)
        };
        if -0x8000_0000 <= v && v <= 0x7fff_ffff {
            Some(v as i32)
        } else {
            None
        }
    }
}

// ---------------------------------------------------------------------------
// Reduction.  Tokens are folded in order into a running relative sum and a
// running absolute hour/minute pair; the first token of each kind brings its
// accumulator into existence.  Once a relative token has been seen, every
// later magnitude feeds the relative sum, where the arithmetic wraps as
// 32-bit arithmetic does.  A structurally empty token (the one a unit letter
// or colon opens) contributes nothing; any other token must carry a valid
// magnitude, in range for the absolute field it names, or the whole string
// is garbage.
// ---------------------------------------------------------------------------

pub ghost struct ReduceState {
    pub rel: Option<i32>,
    pub abs: Option<(u8, u8)>,
}

/// Seconds per unit letter; a missing unit means minutes.
pub open spec fn unit_multiplier(unit: Option<char>) -> i32 {
    match unit {
        Some(c) => if c == 's' {
            1
        } else if c == 'm' {
            60
        } else if c == 'h' {
            3600
        } else {
            1
        },
        None => 60,
    }
}

/// The running relative sum after one more magnitude.  Once the sum is
/// negative, an unsigned magnitude is subtracted rather than added, so the
/// sum moves away from zero.
pub open spec fn relative_accumulate(seconds: i32, v: i32) -> i32 {
    if seconds < 0 && v > 0 {
        vstd::wrapping::i32_specs::wrapping_sub(seconds, v)
    } else {
        vstd::wrapping::i32_specs::wrapping_add(seconds, v)
    }
}

pub open spec fn reduce_step(st: ReduceState, t: SpecToken) -> Result<ReduceState, ParseError> {
    let started = ReduceState {
        rel: if t.relative && st.rel is None {
            Some(0i32)
        } else {
            st.rel
        },
        abs: if !t.relative && st.abs is None {
            Some((0u8, 0u8))
        } else {
            st.abs
        },
    };
    if t.text.len() == 0 {
        Ok(started)
    } else {
        match spec_parse_i32(t.text) {
            None => Err(ParseError::Empty),
            Some(n) => match started.rel {
                Some(seconds) => {
                    let v = vstd::wrapping::i32_specs::wrapping_mul(n, unit_multiplier(t.unit));
                    Ok(ReduceState { rel: Some(relative_accumulate(seconds, v)), abs: started.abs })
                },
                None => match started.abs {
                    Some((hour, minute)) => {
                        let assigns_hour = t.unit == Some('h');
                        let assigns_minute = t.unit is None || t.unit == Some('m');
                        if assigns_hour {
                            if 0 <= n < 24 {
                                Ok(ReduceState { rel: started.rel, abs: Some((n as u8, minute)) })
                            } else {
                                Err(ParseError::Empty)
                            }
                        } else if assigns_minute {
                            if 0 <= n < 60 {
                                Ok(ReduceState { rel: started.rel, abs: Some((hour, n as u8)) })
                            } else {
                                Err(ParseError::Empty)
                            }
                        } else {
                            Ok(started)
                        }
                    },
                    None => Ok(started),
                },
            },
        }
    }
}

pub open spec fn spec_reduce(toks: Seq<SpecToken>) -> Result<ReduceState, ParseError>
    decreases toks.len(),
{
    if toks.len() == 0 {
        Ok(ReduceState { rel: None, abs: None })
    } else {
        match spec_reduce(toks.drop_last()) {
            Err(e) => Err(e),
            Ok(st) => reduce_step(st, toks.last()),
        }
    }
}

/// The meaning of a whole time-spec string.  A string with any colon token is
/// absolute; one with only unit-letter tokens is relative; a string that
/// tokenises to nothing, or whose magnitudes are garbage, is empty.
pub open spec fn spec_parse_time_spec(s: Seq<char>) -> Result<AbsRelTime, ParseError> {
    match spec_tokenize(s) {
        Err(e) => Err(e),
        Ok(toks) => if toks.len() == 0 {
            Err(ParseError::Empty)
        } else {
            match spec_reduce(toks) {
                Err(e) => Err(e),
                Ok(st) => match st.abs {
                    Some((hour, minute)) => Ok(AbsRelTime::Absolute { hour, minute }),
                    None => match st.rel {
                        Some(seconds) => Ok(AbsRelTime::Relative { offset_seconds: seconds }),
                        None => Err(ParseError::Empty),
                    },
                },
            }
        },
    }
}

// ---------------------------------------------------------------------------
// The executable parser.
// ---------------------------------------------------------------------------

/// An executable token, viewed as a `SpecToken`.
pub(crate) struct Token {
    pub text: Vec<char>,
    pub unit: Option<char>,
    pub relative: bool,
}

pub(crate) open spec fn token_view(t: Token) -> SpecToken {
    SpecToken { text: t.text@, unit: t.unit, relative: t.relative }
}

pub(crate) open spec fn tokens_view(toks: Seq<Token>) -> Seq<SpecToken> {
    toks.map_values(|t: Token| token_view(t))
}

proof fn lemma_digits_value_nonneg(s: Seq<char>)
    requires
        all_digits(s),
    ensures
        digits_value(s) >= 0,
    decreases s.len(),
{
    if s.len() > 0 {
        assert(forall|i: int| 0 <= i < s.drop_last().len() ==> is_digit_char(
            #[trigger] s.drop_last()[i],
        ));
        lemma_digits_value_nonneg(s.drop_last());
    }
}

/// The magnitude of a token's text: `i32::from_str_radix` semantics, base
/// ten.
#[verifier::loop_isolation(false)]
fn parse_i32_chars(text: &Vec<char>) -> (r: Option<i32>)
    ensures
        r == spec_parse_i32(text@),
{
    let len: usize = text.len();
    if len == 0 {
        return None;
    }
    let first: char = text[0];
    let negative: bool = first == '-';
    let has_sign: bool = first == '-' || first == '+';
    let start: usize = if has_sign {
        1
    } else {
        0
    };
    let ghost magnitude: Seq<char> = text@.subrange(start as int, len as int);
    proof {
        if has_sign {
            assert(magnitude =~= text@.drop_first());
        } else {
            assert(magnitude =~= text@);
        }
    }
    if start == len {
        return None;
    }
    let mut acc: i64 = 0;
    let mut over: bool = false;
    let mut i: usize = start;
    while i < len
        invariant
            start <= i <= len,
            len == text@.len(),
            start < len,
            magnitude == text@.subrange(start as int, len as int),
            all_digits(text@.subrange(start as int, i as int)),
            !over ==> acc == digits_value(text@.subrange(start as int, i as int)) && 0 <= acc
                <= 0x8000_0000,
            over ==> digits_value(text@.subrange(start as int, i as int)) > 0x8000_0000,
        decreases len - i,
    {
        let c: char = text[i];
        let u: u32 = c as u32;
        proof {
            assert(text@.subrange(start as int, (i + 1) as int) =~= text@.subrange(
                start as int,
                i as int,
            ).push(c));
        }
        if u < 48 || u > 57 {
            proof {
                assert(magnitude[(i - start) as int] == c);
                assert(!is_digit_char(magnitude[(i - start) as int]));
                assert(!all_digits(magnitude));
            }
            return None;
        }
        let ghost prefix: Seq<char> = text@.subrange(start as int, i as int);
        proof {
            assert(prefix.push(c).drop_last() =~= prefix);
            assert(prefix.push(c).last() == c);
            assert(digits_value(prefix.push(c)) == digits_value(prefix) * 10 + (c as u32 - 48));
            if over {
                lemma_digits_value_nonneg(prefix);
            }
        }
        if !over {
            acc = acc * 10 + ((u - 48) as i64);
            if acc > 0x8000_0000 {
                over = true;
            }
        }
        i += 1;
    }
    proof {
        assert(magnitude =~= text@.subrange(start as int, len as int));
    }
    if over {
        return None;
    }
    if negative {
        Some((-acc) as i32)
    } else {
        if acc > 0x7fff_ffff {
            None
        } else {
            Some(acc as i32)
        }
    }
}

proof fn lemma_tokenize_err_extends(s: Seq<char>, i: int)
    requires
        0 <= i <= s.len(),
        spec_tokenize(s.take(i)) is Err,
    ensures
        spec_tokenize(s) == spec_tokenize(s.take(i)),
    decreases s.len() - i,
{
    if i < s.len() {
        assert(s.take(i + 1).drop_last() =~= s.take(i));
        assert(s.take(i + 1).last() == s[i]);
        lemma_tokenize_err_extends(s, i + 1);
    } else {
        assert(s.take(i) =~= s);
    }
}

/// Scan a time-spec string into its tokens.
#[verifier::loop_isolation(false)]
fn tokenize(s: &str) -> (r: Result<Vec<Token>, ParseError>)
    ensures
        match r {
            Ok(toks) => spec_tokenize(s@) == Ok::<Seq<SpecToken>, ParseError>(tokens_view(toks@)),
            Err(e) => spec_tokenize(s@) == Err::<Seq<SpecToken>, ParseError>(e),
        },
{
    let len: usize = s.unicode_len();
    let mut toks: Vec<Token> = Vec::new();
    proof {
        assert(s@.take(0) =~= Seq::<char>::empty());
        assert(tokens_view(toks@) =~= Seq::<SpecToken>::empty());
    }
    let mut i: usize = 0;
    while i < len
        invariant
            i <= len,
            len == s@.len(),
            spec_tokenize(s@.take(i as int)) == Ok::<Seq<SpecToken>, ParseError>(
                tokens_view(toks@),
            ),
        decreases len - i,
    {
        let c: char = s.get_char(i);
        proof {
            assert(s@.take((i + 1) as int).drop_last() =~= s@.take(i as int));
            assert(s@.take((i + 1) as int).last() == s@[i as int]);
        }
        let u: u32 = c as u32;
        if c == '-' || c == '+' || (48 <= u && u <= 57) {
            let n: usize = toks.len();
            if n > 0 {
                let ghost before: Seq<Token> = toks@;
                let mut t: Token = toks.pop().unwrap();
                if (c == '-' || c == '+') && t.text.len() > 0 {
                    proof {
                        lemma_tokenize_err_extends(s@, (i + 1) as int);
                    }
                    return Err(ParseError::UnexpectedCharacter(c));
                }
                t.text.push(c);
                toks.push(t);
                proof {
                    assert(tokens_view(toks@) =~= tokens_view(before).update(
                        before.len() - 1,
                        SpecToken {
                            text: token_view(before.last()).text.push(c),
                            unit: token_view(before.last()).unit,
                            relative: token_view(before.last()).relative,
                        },
                    ));
                }
            } else {
                let mut txt: Vec<char> = Vec::new();
                txt.push(c);
                toks.push(Token { text: txt, unit: None, relative: true });
                proof {
                    assert(tokens_view(toks@) =~= seq![
                        SpecToken { text: seq![c], unit: None, relative: true },
                    ]);
                }
            }
        } else if c == 's' || c == 'h' || c == 'm' || c == 'z' {
            let n: usize = toks.len();
            if n == 0 {
                proof {
                    lemma_tokenize_err_extends(s@, (i + 1) as int);
                }
                return Err(ParseError::UnitBeforeDigit);
            }
            let ghost before: Seq<Token> = toks@;
            let mut t: Token = toks.pop().unwrap();
            t.unit = Some(c);
            toks.push(t);
            toks.push(Token { text: Vec::new(), unit: None, relative: true });
            proof {
                assert(tokens_view(toks@) =~= tokens_view(before).update(
                    before.len() - 1,
                    SpecToken {
                        text: token_view(before.last()).text,
                        unit: Some(c),
                        relative: token_view(before.last()).relative,
                    },
                ).push(SpecToken { text: Seq::empty(), unit: None, relative: true }));
            }
        } else if c == ':' {
            let n: usize = toks.len();
            if n == 0 {
                proof {
                    lemma_tokenize_err_extends(s@, (i + 1) as int);
                }
                return Err(ParseError::ColonBeforeDigit);
            }
            let ghost before: Seq<Token> = toks@;
            let mut t: Token = toks.pop().unwrap();
            let closing_unit: Option<char> = if n == 1 {
                Some('h')
            } else if n == 2 {
                Some('m')
            } else if n == 3 {
                Some('s')
            } else {
                t.unit
            };
            t.unit = closing_unit;
            t.relative = false;
            let opened_unit: Option<char> = if n == 1 {
                Some('m')
            } else if n == 2 {
                Some('s')
            } else {
                None
            };
            toks.push(t);
            toks.push(Token { text: Vec::new(), unit: opened_unit, relative: false });
            proof {
                assert(tokens_view(toks@) =~= tokens_view(before).update(
                    before.len() - 1,
                    SpecToken { text: token_view(before.last()).text, unit: closing_unit, relative: false },
                ).push(SpecToken { text: Seq::empty(), unit: opened_unit, relative: false }));
            }
        } else {
            proof {
                lemma_tokenize_err_extends(s@, (i + 1) as int);
            }
            return Err(ParseError::UnexpectedCharacter(c));
        }
        i += 1;
    }
    proof {
        assert(s@.take(len as int) =~= s@);
    }
    Ok(toks)
}

proof fn lemma_reduce_err_extends(toks: Seq<SpecToken>, i: int)
    requires
        0 <= i <= toks.len(),
        spec_reduce(toks.take(i)) is Err,
    ensures
        spec_reduce(toks) == spec_reduce(toks.take(i)),
    decreases toks.len() - i,
{
    if i < toks.len() {
        assert(toks.take(i + 1).drop_last() =~= toks.take(i));
        assert(toks.take(i + 1).last() == toks[i]);
        lemma_reduce_err_extends(toks, i + 1);
    } else {
        assert(toks.take(i) =~= toks);
    }
}

/// Fold the token list into the final accumulators, rejecting garbage
/// magnitudes and out-of-range absolute fields.
#[verifier::loop_isolation(false)]
fn reduce(toks: &Vec<Token>) -> (r: Result<(Option<i32>, Option<(u8, u8)>), ParseError>)
    ensures
        match r {
            Ok(folded) => spec_reduce(tokens_view(toks@)) == Ok::<ReduceState, ParseError>(
                ReduceState { rel: folded.0, abs: folded.1 },
            ),
            Err(e) => spec_reduce(tokens_view(toks@)) == Err::<ReduceState, ParseError>(e),
        },
{
    let mut rel: Option<i32> = None;
    let mut abs: Option<(u8, u8)> = None;
    let mut i: usize = 0;
    while i < toks.len()
        invariant
            i <= toks@.len(),
            spec_reduce(tokens_view(toks@).take(i as int)) == Ok::<ReduceState, ParseError>(
                ReduceState { rel, abs },
            ),
        decreases toks@.len() - i,
    {
        proof {
            assert(tokens_view(toks@).take((i + 1) as int).drop_last() =~= tokens_view(
                toks@,
            ).take(i as int));
            assert(tokens_view(toks@).take((i + 1) as int).last() == token_view(toks@[i as int]));
        }
        let t: &Token = &toks[i];
        if t.relative {
            if rel.is_none() {
                rel = Some(0);
            }
        } else {
            if abs.is_none() {
                abs = Some((0, 0));
            }
        }
        if t.text.len() > 0 {
            let n: i32 = match parse_i32_chars(&t.text) {
                Some(n) => n,
                None => {
                    proof {
                        lemma_reduce_err_extends(tokens_view(toks@), (i + 1) as int);
                    }
                    return Err(ParseError::Empty);
                },
            };
            match rel {
                Some(seconds) => {
                    let mul: i32 = match t.unit {
                        Some(uc) => if uc == 's' {
                            1
                        } else if uc == 'm' {
                            60
                        } else if uc == 'h' {
                            3600
                        } else {
                            1
                        },
                        None => 60,
                    };
                    let v: i32 = n.wrapping_mul(mul);
                    let accumulated: i32 = if seconds < 0 && v > 0 {
                        seconds.wrapping_sub(v)
                    } else {
                        seconds.wrapping_add(v)
                    };
                    rel = Some(accumulated);
                },
                None => {
                    if let Some((hour, minute)) = abs {
                        let assigns_hour: bool = match t.unit {
                            Some(uc) => uc == 'h',
                            None => false,
                        };
                        let assigns_minute: bool = match t.unit {
                            Some(uc) => uc == 'm',
                            None => true,
                        };
                        if assigns_hour {
                            if 0 <= n && n < 24 {
                                abs = Some((n as u8, minute));
                            } else {
                                proof {
                                    lemma_reduce_err_extends(tokens_view(toks@), (i + 1) as int);
                                }
                                return Err(ParseError::Empty);
                            }
                        } else if assigns_minute {
                            if 0 <= n && n < 60 {
                                abs = Some((hour, n as u8));
                            } else {
                                proof {
                                    lemma_reduce_err_extends(tokens_view(toks@), (i + 1) as int);
                                }
                                return Err(ParseError::Empty);
                            }
                        }
                    }
                },
            }
        }
        i += 1;
    }
    proof {
        assert(tokens_view(toks@).take(toks@.len() as int) =~= tokens_view(toks@));
    }
    Ok((rel, abs))
}

/// An absolute accumulator only ever holds a real time of day.
proof fn lemma_reduce_abs_in_range(toks: Seq<SpecToken>)
    ensures
        (match spec_reduce(toks) {
            Ok(st) => match st.abs {
                Some(hm) => 0 <= hm.0 < 24 && 0 <= hm.1 < 60,
                None => true,
            },
            Err(_) => true,
        }),
    decreases toks.len(),
{
    if toks.len() > 0 {
        lemma_reduce_abs_in_range(toks.drop_last());
        match spec_reduce(toks.drop_last()) {
            Ok(st0) => {
                assert(spec_reduce(toks) == reduce_step(st0, toks.last()));
            },
            Err(_) => (),
        }
    }
}

/// Parse a time-spec string: the absolute colon form to a wall-clock time of
/// day, the unit-letter form to a signed solar-anchor offset, exactly as
/// `spec_parse_time_spec` reads the string.  An absolute result always
/// names a real time of day.
pub fn parse_time_spec(s: &str) -> (r: Result<AbsRelTime, ParseError>)
    ensures
        r == spec_parse_time_spec(s@),
        r matches Ok(t) ==> t.wf(),
{
    proof {
        match spec_tokenize(s@) {
            Ok(scanned) => lemma_reduce_abs_in_range(scanned),
            Err(_) => (),
        }
    }
    let toks: Vec<Token> = match tokenize(s) {
        Ok(toks) => toks,
        Err(e) => {
            return Err(e);
        },
    };
    if toks.len() == 0 {
        return Err(ParseError::Empty);
    }
    let folded = match reduce(&toks) {
        Ok(folded) => folded,
        Err(e) => {
            return Err(e);
        },
    };
    match folded.1 {
        Some((hour, minute)) => Ok(AbsRelTime::Absolute { hour, minute }),
        None => match folded.0 {
            Some(seconds) => Ok(AbsRelTime::Relative { offset_seconds: seconds }),
            None => Err(ParseError::Empty),
        },
    }
}

/// Parsing is deterministic: the meaning of a time-spec string is one
/// function of its characters and nothing else, so parsing equal strings
/// always yields equal results.  (Parsing is total as well:
/// `parse_time_spec` has no precondition and returns a `Result` for every
/// string.)
pub proof fn lemma_parse_deterministic(s1: Seq<char>, s2: Seq<char>)
    requires
        s1 == s2,
    ensures
        spec_parse_time_spec(s1) == spec_parse_time_spec(s2),
{
}

} // verus!
