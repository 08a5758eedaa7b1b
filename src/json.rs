//! Recognition of JSON text (RFC 8259) over its UTF-8 bytes, as a machine
//! that reads one byte at a time with a stack of open containers.
use vstd::prelude::*;

verus! {

/// Where the reader stands. `bool` fields tell a string that is an object
/// key (`true`) from one that is a value.
#[derive(Clone, Copy, Debug)]
pub enum Mode {
    /// A value is due.
    Value,
    /// Just after `[`: a value or `]`.
    ValueOrClose,
    /// Just after `{`: a key or `}`.
    KeyOrClose,
    /// After `,` in an object: a key.
    Key,
    /// After a key: `:`.
    Colon,
    /// A value is complete: `,`, a closing bracket, or the end.
    After,
    /// Inside a string.
    Str(bool),
    /// After `\` in a string.
    Esc(bool),
    /// Within `\u`: the number of hex digits still due.
    Hex(bool, u8),
    /// Within `true` (0), `false` (1) or `null` (2): the word and the
    /// position of the next byte.
    Lit(u8, u8),
    /// After a leading `-`.
    Minus,
    /// An integer part `0`.
    Zero,
    /// An integer part not starting with `0`.
    Int,
    /// After `.`: a digit is due.
    Dot,
    /// In the fraction.
    Frac,
    /// After `e` or `E`.
    Exp,
    /// After the exponent's sign.
    ExpSign,
    /// In the exponent's digits.
    ExpInt,
}

pub open spec fn is_json_ws(c: u8) -> bool {
    c == 0x20 || c == 0x09 || c == 0x0A || c == 0x0D
}

pub open spec fn is_digit(c: u8) -> bool {
    0x30 <= c && c <= 0x39
}

pub open spec fn is_hex_digit(c: u8) -> bool {
    is_digit(c) || (0x41 <= c && c <= 0x46) || (0x61 <= c && c <= 0x66)
}

/// The bytes of `true`, `false` and `null`.
pub open spec fn literal_byte(k: u8, p: u8) -> u8 {
    if k == 0 {
        if p == 0 { 0x74u8 } else if p == 1 { 0x72u8 } else if p == 2 { 0x75u8 } else { 0x65u8 }
    } else if k == 1 {
        if p == 0 { 0x66u8 } else if p == 1 { 0x61u8 } else if p == 2 { 0x6Cu8 } else if p == 3 { 0x73u8 } else { 0x65u8 }
    } else {
        if p == 0 { 0x6Eu8 } else if p == 1 { 0x75u8 } else { 0x6Cu8 }
    }
}

pub open spec fn literal_len(k: u8) -> u8 {
    if k == 1 { 5u8 } else { 4u8 }
}

/// The first byte of a value.
pub open spec fn start_value(c: u8, st: Seq<bool>) -> Option<(Mode, Seq<bool>)> {
    if c == 0x7B {
        Some((Mode::KeyOrClose, st.push(true)))
    } else if c == 0x5B {
        Some((Mode::ValueOrClose, st.push(false)))
    } else if c == 0x22 {
        Some((Mode::Str(false), st))
    } else if c == 0x2D {
        Some((Mode::Minus, st))
    } else if c == 0x30 {
        Some((Mode::Zero, st))
    } else if is_digit(c) {
        Some((Mode::Int, st))
    } else if c == 0x74 {
        Some((Mode::Lit(0, 1), st))
    } else if c == 0x66 {
        Some((Mode::Lit(1, 1), st))
    } else if c == 0x6E {
        Some((Mode::Lit(2, 1), st))
    } else {
        None
    }
}

/// Closes the innermost container, which must be an object (`obj`) or an array.
pub open spec fn close(st: Seq<bool>, obj: bool) -> Option<(Mode, Seq<bool>)> {
    if st.len() > 0 && st.last() == obj {
        Some((Mode::After, st.drop_last()))
    } else {
        None
    }
}

/// A byte after a complete value.
pub open spec fn after_value(c: u8, st: Seq<bool>) -> Option<(Mode, Seq<bool>)> {
    if is_json_ws(c) {
        Some((Mode::After, st))
    } else if c == 0x2C {
        if st.len() == 0 {
            None
        } else if st.last() {
            Some((Mode::Key, st))
        } else {
            Some((Mode::Value, st))
        }
    } else if c == 0x7D {
        close(st, true)
    } else if c == 0x5D {
        close(st, false)
    } else {
        None
    }
}

/// One byte read in mode `m` with open containers `st`.
pub open spec fn json_step(m: Mode, st: Seq<bool>, c: u8) -> Option<(Mode, Seq<bool>)> {
    let exp = c == 0x65 || c == 0x45;
    match m {
        Mode::Value => if is_json_ws(c) { Some((m, st)) } else { start_value(c, st) },
        Mode::ValueOrClose => if is_json_ws(c) {
            Some((m, st))
        } else if c == 0x5D {
            close(st, false)
        } else {
            start_value(c, st)
        },
        Mode::KeyOrClose => if is_json_ws(c) {
            Some((m, st))
        } else if c == 0x7D {
            close(st, true)
        } else if c == 0x22 {
            Some((Mode::Str(true), st))
        } else {
            None
        },
        Mode::Key => if is_json_ws(c) {
            Some((m, st))
        } else if c == 0x22 {
            Some((Mode::Str(true), st))
        } else {
            None
        },
        Mode::Colon => if is_json_ws(c) {
            Some((m, st))
        } else if c == 0x3A {
            Some((Mode::Value, st))
        } else {
            None
        },
        Mode::After => after_value(c, st),
        Mode::Str(k) => if c == 0x22 {
            Some((if k { Mode::Colon } else { Mode::After }, st))
        } else if c == 0x5C {
            Some((Mode::Esc(k), st))
        } else if c < 0x20 {
            None
        } else {
            Some((m, st))
        },
        Mode::Esc(k) => if c == 0x22 || c == 0x5C || c == 0x2F || c == 0x62 || c == 0x66 || c == 0x6E
            || c == 0x72 || c == 0x74 {
            Some((Mode::Str(k), st))
        } else if c == 0x75 {
            Some((Mode::Hex(k, 4), st))
        } else {
            None
        },
        Mode::Hex(k, n) => if !is_hex_digit(c) {
            None
        } else if n <= 1 {
            Some((Mode::Str(k), st))
        } else {
            Some((Mode::Hex(k, (n - 1) as u8), st))
        },
        Mode::Lit(w, p) => if p < literal_len(w) && c == literal_byte(w, p) {
            if p + 1 >= literal_len(w) {
                Some((Mode::After, st))
            } else {
                Some((Mode::Lit(w, (p + 1) as u8), st))
            }
        } else {
            None
        },
        Mode::Minus => if c == 0x30 {
            Some((Mode::Zero, st))
        } else if is_digit(c) {
            Some((Mode::Int, st))
        } else {
            None
        },
        Mode::Zero => if c == 0x2E {
            Some((Mode::Dot, st))
        } else if exp {
            Some((Mode::Exp, st))
        } else {
            after_value(c, st)
        },
        Mode::Int => if is_digit(c) {
            Some((m, st))
        } else if c == 0x2E {
            Some((Mode::Dot, st))
        } else if exp {
            Some((Mode::Exp, st))
        } else {
            after_value(c, st)
        },
        Mode::Dot => if is_digit(c) { Some((Mode::Frac, st)) } else { None },
        Mode::Frac => if is_digit(c) {
            Some((m, st))
        } else if exp {
            Some((Mode::Exp, st))
        } else {
            after_value(c, st)
        },
        Mode::Exp => if c == 0x2B || c == 0x2D {
            Some((Mode::ExpSign, st))
        } else if is_digit(c) {
            Some((Mode::ExpInt, st))
        } else {
            None
        },
        Mode::ExpSign => if is_digit(c) { Some((Mode::ExpInt, st)) } else { None },
        Mode::ExpInt => if is_digit(c) { Some((m, st)) } else { after_value(c, st) },
    }
}

/// Where the reader stands after the bytes `s`, or nothing once one was refused.
pub open spec fn json_run(s: Seq<u8>) -> Option<(Mode, Seq<bool>)>
    decreases s.len(),
{
    if s.len() == 0 {
        Some((Mode::Value, Seq::empty()))
    } else {
        match json_run(s.drop_last()) {
            None => None,
            Some((m, st)) => json_step(m, st, s.last()),
        }
    }
}

/// The text may end here: one value is complete and no container is open.
pub open spec fn may_end(m: Mode, st: Seq<bool>) -> bool {
    &&& st.len() == 0
    &&& (m is After || m is Zero || m is Int || m is Frac || m is ExpInt)
}

/// `s` is one JSON value, with whitespace around it.
pub open spec fn is_json(s: Seq<u8>) -> bool {
    match json_run(s) {
        Some((m, st)) => may_end(m, st),
        None => false,
    }
}

fn json_ws(c: u8) -> (r: bool)
    ensures
        r == is_json_ws(c),
{
    c == 0x20 || c == 0x09 || c == 0x0A || c == 0x0D
}

fn digit(c: u8) -> (r: bool)
    ensures
        r == is_digit(c),
{
    0x30 <= c && c <= 0x39
}

fn hex_digit(c: u8) -> (r: bool)
    ensures
        r == is_hex_digit(c),
{
    digit(c) || (0x41 <= c && c <= 0x46) || (0x61 <= c && c <= 0x66)
}

fn lit_byte(k: u8, p: u8) -> (r: u8)
    ensures
        r == literal_byte(k, p),
{
    if k == 0 {
        if p == 0 { 0x74 } else if p == 1 { 0x72 } else if p == 2 { 0x75 } else { 0x65 }
    } else if k == 1 {
        if p == 0 { 0x66 } else if p == 1 { 0x61 } else if p == 2 { 0x6C } else if p == 3 { 0x73 } else { 0x65 }
    } else {
        if p == 0 { 0x6E } else if p == 1 { 0x75 } else { 0x6C }
    }
}

fn lit_len(k: u8) -> (r: u8)
    ensures
        r == literal_len(k),
{
    if k == 1 { 5 } else { 4 }
}

/// What a reader step gives, as the exec side sees it.
pub open spec fn stepped(r: Option<Mode>, st: Seq<bool>, expected: Option<(Mode, Seq<bool>)>) -> bool {
    match expected {
        Some((m, s)) => r == Some(m) && st == s,
        None => r is None,
    }
}

fn begin_value(c: u8, st: &mut Vec<bool>) -> (r: Option<Mode>)
    ensures
        stepped(r, final(st)@, start_value(c, old(st)@)),
{
    if c == 0x7B {
        st.push(true);
        Some(Mode::KeyOrClose)
    } else if c == 0x5B {
        st.push(false);
        Some(Mode::ValueOrClose)
    } else if c == 0x22 {
        Some(Mode::Str(false))
    } else if c == 0x2D {
        Some(Mode::Minus)
    } else if c == 0x30 {
        Some(Mode::Zero)
    } else if digit(c) {
        Some(Mode::Int)
    } else if c == 0x74 {
        Some(Mode::Lit(0, 1))
    } else if c == 0x66 {
        Some(Mode::Lit(1, 1))
    } else if c == 0x6E {
        Some(Mode::Lit(2, 1))
    } else {
        None
    }
}

fn close_container(st: &mut Vec<bool>, obj: bool) -> (r: Option<Mode>)
    ensures
        stepped(r, final(st)@, close(old(st)@, obj)),
{
    let n = st.len();
    if n > 0 && st[n - 1] == obj {
        st.pop();
        Some(Mode::After)
    } else {
        None
    }
}

fn end_value(c: u8, st: &mut Vec<bool>) -> (r: Option<Mode>)
    ensures
        stepped(r, final(st)@, after_value(c, old(st)@)),
{
    if json_ws(c) {
        Some(Mode::After)
    } else if c == 0x2C {
        let n = st.len();
        if n == 0 {
            None
        } else if st[n - 1] {
            Some(Mode::Key)
        } else {
            Some(Mode::Value)
        }
    } else if c == 0x7D {
        close_container(st, true)
    } else if c == 0x5D {
        close_container(st, false)
    } else {
        None
    }
}

fn step(m: Mode, st: &mut Vec<bool>, c: u8) -> (r: Option<Mode>)
    ensures
        stepped(r, final(st)@, json_step(m, old(st)@, c)),
{
    let exp = c == 0x65 || c == 0x45;
    match m {
        Mode::Value => if json_ws(c) { Some(m) } else { begin_value(c, st) },
        Mode::ValueOrClose => if json_ws(c) {
            Some(m)
        } else if c == 0x5D {
            close_container(st, false)
        } else {
            begin_value(c, st)
        },
        Mode::KeyOrClose => if json_ws(c) {
            Some(m)
        } else if c == 0x7D {
            close_container(st, true)
        } else if c == 0x22 {
            Some(Mode::Str(true))
        } else {
            None
        },
        Mode::Key => if json_ws(c) {
            Some(m)
        } else if c == 0x22 {
            Some(Mode::Str(true))
        } else {
            None
        },
        Mode::Colon => if json_ws(c) {
            Some(m)
        } else if c == 0x3A {
            Some(Mode::Value)
        } else {
            None
        },
        Mode::After => end_value(c, st),
        Mode::Str(k) => if c == 0x22 {
            Some(if k { Mode::Colon } else { Mode::After })
        } else if c == 0x5C {
            Some(Mode::Esc(k))
        } else if c < 0x20 {
            None
        } else {
            Some(m)
        },
        Mode::Esc(k) => if c == 0x22 || c == 0x5C || c == 0x2F || c == 0x62 || c == 0x66 || c == 0x6E
            || c == 0x72 || c == 0x74 {
            Some(Mode::Str(k))
        } else if c == 0x75 {
            Some(Mode::Hex(k, 4))
        } else {
            None
        },
        Mode::Hex(k, n) => if !hex_digit(c) {
            None
        } else if n <= 1 {
            Some(Mode::Str(k))
        } else {
            Some(Mode::Hex(k, n - 1))
        },
        Mode::Lit(w, p) => if p < lit_len(w) && c == lit_byte(w, p) {
            if p + 1 >= lit_len(w) {
                Some(Mode::After)
            } else {
                Some(Mode::Lit(w, p + 1))
            }
        } else {
            None
        },
        Mode::Minus => if c == 0x30 {
            Some(Mode::Zero)
        } else if digit(c) {
            Some(Mode::Int)
        } else {
            None
        },
        Mode::Zero => if c == 0x2E {
            Some(Mode::Dot)
        } else if exp {
            Some(Mode::Exp)
        } else {
            end_value(c, st)
        },
        Mode::Int => if digit(c) {
            Some(m)
        } else if c == 0x2E {
            Some(Mode::Dot)
        } else if exp {
            Some(Mode::Exp)
        } else {
            end_value(c, st)
        },
        Mode::Dot => if digit(c) { Some(Mode::Frac) } else { None },
        Mode::Frac => if digit(c) {
            Some(m)
        } else if exp {
            Some(Mode::Exp)
        } else {
            end_value(c, st)
        },
        Mode::Exp => if c == 0x2B || c == 0x2D {
            Some(Mode::ExpSign)
        } else if digit(c) {
            Some(Mode::ExpInt)
        } else {
            None
        },
        Mode::ExpSign => if digit(c) { Some(Mode::ExpInt) } else { None },
        Mode::ExpInt => if digit(c) { Some(m) } else { end_value(c, st) },
    }
}

/// Whether the bytes `s` are one JSON value, with whitespace around it.
pub fn json_bytes_valid(s: &[u8]) -> (r: bool)
    ensures
        r == is_json(s@),
{
    let mut m = Mode::Value;
    let mut st: Vec<bool> = Vec::new();
    let mut i: usize = 0;
    while i < s.len()
        invariant
            i <= s@.len(),
            json_run(s@.take(i as int)) == Some((m, st@)),
        decreases s@.len() - i,
    {
        assert(s@.take(i + 1).drop_last() =~= s@.take(i as int));
        assert(s@.take(i + 1).last() == s@[i as int]);
        match step(m, &mut st, s[i]) {
            Some(next) => {
                m = next;
            },
            None => {
                proof {
                    lemma_refused_stays_refused(s@, i as int + 1);
                }
                return false;
            },
        }
        i = i + 1;
    }
    assert(s@.take(s@.len() as int) =~= s@);
    may_end_exec(m, st.len())
}

fn may_end_exec(m: Mode, depth: usize) -> (r: bool)
    ensures
        r == (depth == 0 && (m is After || m is Zero || m is Int || m is Frac || m is ExpInt)),
{
    depth == 0 && match m {
        Mode::After | Mode::Zero | Mode::Int | Mode::Frac | Mode::ExpInt => true,
        _ => false,
    }
}

/// Once a byte is refused, no longer text is JSON.
pub proof fn lemma_refused_stays_refused(s: Seq<u8>, i: int)
    requires
        0 <= i <= s.len(),
        json_run(s.take(i)) is None,
    ensures
        json_run(s) is None,
        !is_json(s),
    decreases s.len() - i,
{
    if i < s.len() {
        assert(s.take(i + 1).drop_last() =~= s.take(i));
        lemma_refused_stays_refused(s, i + 1);
    } else {
        assert(s.take(i) =~= s);
    }
}

} // verus!
