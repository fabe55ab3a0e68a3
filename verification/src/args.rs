//! Pieces of argument lists: a flag with its value, left out when there is
//! no value to give.

use crate::text::{
    blank, decimal, decimal_of, is_blank, lemma_views_push, opt_view, trim, trimmed, views,
};
use vstd::prelude::*;

verus! {

/// A flag and a text value. The value goes without the white space around
/// it; a missing or blank value leaves the flag out.
pub open spec fn flag_text(flag: Seq<char>, value: Option<Seq<char>>) -> Seq<Seq<char>> {
    match value {
        Some(v) => if is_blank(v) {
            Seq::empty()
        } else {
            seq![flag, trimmed(v)]
        },
        None => Seq::empty(),
    }
}

/// A flag and a text value that goes as it is; a missing value leaves the
/// flag out.
pub open spec fn flag_as_is(flag: Seq<char>, value: Option<Seq<char>>) -> Seq<Seq<char>> {
    match value {
        Some(v) => seq![flag, v],
        None => Seq::empty(),
    }
}

/// A flag and a number in decimal; a missing number leaves the flag out.
pub open spec fn flag_number(flag: Seq<char>, value: Option<u32>) -> Seq<Seq<char>> {
    match value {
        Some(n) => seq![flag, decimal_of(n as nat)],
        None => Seq::empty(),
    }
}

/// A flag and `true` or `false`; a missing value leaves the flag out.
pub open spec fn flag_bool(flag: Seq<char>, value: Option<bool>) -> Seq<Seq<char>> {
    match value {
        Some(b) => seq![flag, if b { "true"@ } else { "false"@ }],
        None => Seq::empty(),
    }
}

/// A flag without a value, given when `on` holds.
pub open spec fn flag_if(flag: Seq<char>, on: bool) -> Seq<Seq<char>> {
    if on {
        seq![flag]
    } else {
        Seq::empty()
    }
}

/// Appends one argument.
pub fn push_arg(out: &mut Vec<String>, arg: &str)
    ensures
        views(final(out)@) == views(old(out)@) + seq![arg@],
{
    let owned = arg.to_string();
    proof {
        lemma_views_push(out@, owned);
        assert(views(out@).push(owned@) =~= views(out@) + seq![arg@]);
    }
    out.push(owned);
}

/// Appends two arguments.
pub fn push_pair(out: &mut Vec<String>, flag: &str, value: String)
    ensures
        views(final(out)@) == views(old(out)@) + seq![flag@, value@],
{
    let ghost before = views(out@);
    push_arg(out, flag);
    proof {
        lemma_views_push(out@, value);
        assert((before + seq![flag@]).push(value@) =~= before + seq![flag@, value@]);
    }
    out.push(value);
}

/// Appends [`flag_text`].
pub fn push_flag_text(out: &mut Vec<String>, flag: &str, value: &Option<String>)
    ensures
        views(final(out)@) == views(old(out)@) + flag_text(flag@, opt_view(*value)),
{
    let ghost before = views(out@);
    match value {
        Some(v) => {
            if !blank(v.as_str()) {
                push_pair(out, flag, trim(v.as_str()));
            } else {
                assert(before + Seq::<Seq<char>>::empty() =~= before);
            }
        },
        None => {
            assert(before + Seq::<Seq<char>>::empty() =~= before);
        },
    }
}

/// Appends [`flag_as_is`].
pub fn push_flag_as_is(out: &mut Vec<String>, flag: &str, value: &Option<String>)
    ensures
        views(final(out)@) == views(old(out)@) + flag_as_is(flag@, opt_view(*value)),
{
    let ghost before = views(out@);
    match value {
        Some(v) => {
            push_pair(out, flag, v.clone());
        },
        None => {
            assert(before + Seq::<Seq<char>>::empty() =~= before);
        },
    }
}

/// Appends [`flag_number`].
pub fn push_flag_number(out: &mut Vec<String>, flag: &str, value: Option<u32>)
    ensures
        views(final(out)@) == views(old(out)@) + flag_number(flag@, value),
{
    let ghost before = views(out@);
    match value {
        Some(n) => {
            push_pair(out, flag, decimal(n));
        },
        None => {
            assert(before + Seq::<Seq<char>>::empty() =~= before);
        },
    }
}

/// Appends [`flag_bool`].
pub fn push_flag_bool(out: &mut Vec<String>, flag: &str, value: Option<bool>)
    ensures
        views(final(out)@) == views(old(out)@) + flag_bool(flag@, value),
{
    let ghost before = views(out@);
    match value {
        Some(b) => {
            let text = if b {
                "true".to_string()
            } else {
                "false".to_string()
            };
            push_pair(out, flag, text);
        },
        None => {
            assert(before + Seq::<Seq<char>>::empty() =~= before);
        },
    }
}

/// Appends [`flag_if`].
pub fn push_flag_if(out: &mut Vec<String>, flag: &str, on: bool)
    ensures
        views(final(out)@) == views(old(out)@) + flag_if(flag@, on),
{
    let ghost before = views(out@);
    if on {
        push_arg(out, flag);
    } else {
        assert(before + Seq::<Seq<char>>::empty() =~= before);
    }
}

} // verus!
