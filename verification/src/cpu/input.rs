//! The words scheduled for the input port, read from `tick:value` texts.
use vstd::prelude::*;

use std::collections::HashMap;

use crate::compiler::chars::chars_of;
use crate::compiler::numbers::{parse_u16, parse_unsigned, parse_usize};

verus! {

broadcast use vstd::std_specs::hash::group_hash_axioms;

/// What is wrong with a `tick:value` text.
#[derive(Clone, Copy, Debug, PartialEq, Eq, Structural)]
pub enum InputFault {
    /// There is no `:`.
    Format,
    /// The text before the first `:` is not a `usize`.
    Tick,
    /// The text after the first `:` is not a `u16`.
    Value,
}

/// The index of the first `:` of a text.
pub open spec fn colon_index(s: Seq<char>, i: int) -> Option<int>
    decreases s.len() - i,
{
    if i < 0 || i >= s.len() {
        None
    } else if s[i] == ':' {
        Some(i)
    } else {
        colon_index(s, i + 1)
    }
}

/// The tick and the word of a `tick:value` text.
pub open spec fn input_entry(s: Seq<char>) -> Result<(usize, u16), InputFault> {
    match colon_index(s, 0) {
        None => Err(InputFault::Format),
        Some(i) => match parse_unsigned(s.take(i), usize::MAX as nat) {
            Err(_) => Err(InputFault::Tick),
            Ok(t) => match parse_unsigned(s.skip(i + 1), 0xffff) {
                Err(_) => Err(InputFault::Value),
                Ok(v) => Ok((t as usize, v as u16)),
            },
        },
    }
}

/// The schedule of the first `n` texts, a later text for a tick replacing
/// an earlier one; or the first faulty text and its fault.
pub open spec fn input_schedule(ss: Seq<Seq<char>>, n: int) -> Result<Map<usize, u16>, (int, InputFault)>
    decreases n,
{
    if n <= 0 || n > ss.len() {
        Ok(Map::empty())
    } else {
        match input_schedule(ss, n - 1) {
            Err(e) => Err(e),
            Ok(m) => match input_entry(ss[n - 1]) {
                Err(f) => Err((n - 1, f)),
                Ok((t, v)) => Ok(m.insert(t, v)),
            },
        }
    }
}

proof fn lemma_schedule_err(ss: Seq<Seq<char>>, k: int, n: int)
    requires
        0 <= k <= n <= ss.len(),
        input_schedule(ss, k) is Err,
    ensures
        input_schedule(ss, n) == input_schedule(ss, k),
    decreases n - k,
{
    if k < n {
        lemma_schedule_err(ss, k, n - 1);
    }
}

/// Reads one `tick:value` text.
fn parse_entry(s: &String) -> (r: Result<(usize, u16), InputFault>)
    ensures
        r == input_entry(s@),
{
    let chars = chars_of(s.as_str());
    let mut i: usize = 0;
    while i < chars.len() && chars[i] != ':'
        invariant
            i <= chars@.len(),
            chars@ == s@,
            colon_index(s@, 0) == colon_index(s@, i as int),
        decreases chars@.len() - i,
    {
        i += 1;
    }
    if i >= chars.len() {
        return Err(InputFault::Format);
    }
    let mut head: Vec<char> = Vec::new();
    let mut h: usize = 0;
    while h < i
        invariant
            h <= i < chars@.len(),
            head@ == chars@.take(h as int),
        decreases i - h,
    {
        head.push(chars[h]);
        h += 1;
        assert(head@ =~= chars@.take(h as int));
    }
    let tick_text = crate::compiler::chars::string_of(head.as_slice());
    let mut rest: Vec<char> = Vec::new();
    let mut j: usize = i + 1;
    while j < chars.len()
        invariant
            i + 1 <= j <= chars@.len(),
            rest@ == chars@.subrange(i + 1, j as int),
        decreases chars@.len() - j,
    {
        rest.push(chars[j]);
        j += 1;
        assert(rest@ =~= chars@.subrange(i + 1, j as int));
    }
    let value_text = crate::compiler::chars::string_of(rest.as_slice());
    assert(tick_text@ =~= s@.take(i as int));
    assert(value_text@ =~= s@.skip(i + 1));
    let tick = match parse_usize(tick_text.as_str()) {
        Ok(t) => t,
        Err(_) => {
            return Err(InputFault::Tick);
        },
    };
    match parse_u16(value_text.as_str()) {
        Ok(v) => Ok((tick, v)),
        Err(_) => Err(InputFault::Value),
    }
}

/// Reads the schedule of the input port from `tick:value` texts; a later
/// text for a tick replaces an earlier one. On a faulty text, gives its
/// index and what is wrong with it.
pub fn parse_input(input: &Vec<String>) -> (r: Result<HashMap<usize, u16>, (usize, InputFault)>)
    ensures
        match input_schedule(input@.map_values(|s: String| s@), input@.len() as int) {
            Ok(m) => r matches Ok(h) && h@ == m,
            Err((i, f)) => r == Err::<HashMap<usize, u16>, (usize, InputFault)>((i as usize, f)),
        },
{
    let ghost ss = input@.map_values(|s: String| s@);
    let mut result: HashMap<usize, u16> = HashMap::new();
    let mut k: usize = 0;
    assert(result@ =~= Map::<usize, u16>::empty());
    while k < input.len()
        invariant
            k <= input@.len(),
            ss == input@.map_values(|s: String| s@),
            input_schedule(ss, k as int) == Ok::<Map<usize, u16>, (int, InputFault)>(result@),
        decreases input@.len() - k,
    {
        assert(ss[k as int] == input@[k as int]@);
        match parse_entry(&input[k]) {
            Ok((t, v)) => {
                result.insert(t, v);
            },
            Err(f) => {
                proof {
                    lemma_schedule_err(ss, k + 1, input@.len() as int);
                }
                return Err((k, f));
            },
        }
        k += 1;
    }
    Ok(result)
}

} // verus!
