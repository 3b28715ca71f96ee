//! The text form in which a task list is stored:
//! `code:param:extra;code:param:extra;...`, each number in decimal.
//!
//! Reading is lenient as it always was: a segment whose kind or parameter
//! does not parse, or whose kind is unknown, is skipped; a missing or
//! unparsable extra word reads as 0 (older lists stored `code:param`).

use vstd::prelude::*;
use crate::constants::{TaskActionType, TaskStep, action_code, action_from_code, lemma_action_code_roundtrip};
use crate::text::{
    all_digits, chars_of, dec, is_digit, lemma_dec_digits, lemma_parse_dec, parse_u32, parse_u64,
    parse_u8, parse_unsigned, push_char, push_dec,
};

verus! {

// ---------------------------------------------------------------------
// Splitting and joining
// ---------------------------------------------------------------------

/// The first index at which `c` occurs in `s`.
pub open spec fn find_char(s: Seq<char>, c: char) -> Option<int>
    decreases s.len(),
{
    if s.len() == 0 {
        None
    } else if s[0] == c {
        Some(0)
    } else {
        match find_char(s.drop_first(), c) {
            Some(i) => Some(i + 1),
            None => None,
        }
    }
}

/// Whether `c` does not occur in `s`.
pub open spec fn lacks(s: Seq<char>, c: char) -> bool {
    forall|i: int| 0 <= i < s.len() ==> s[i] != c
}

proof fn lemma_find_char(s: Seq<char>, c: char)
    ensures
        match find_char(s, c) {
            Some(i) => 0 <= i < s.len() && s[i] == c && lacks(s.take(i), c),
            None => lacks(s, c),
        },
    decreases s.len(),
{
    if s.len() > 0 && s[0] != c {
        lemma_find_char(s.drop_first(), c);
        match find_char(s.drop_first(), c) {
            Some(i) => {
                let t = s.take(i + 1);
                assert forall|j: int| 0 <= j < i + 1 implies t[j] != c by {
                    if j > 0 {
                        assert(t[j] == s.drop_first().take(i)[j - 1]);
                    }
                }
            },
            None => {
                assert forall|j: int| 0 <= j < s.len() implies s[j] != c by {
                    if j > 0 {
                        assert(s[j] == s.drop_first()[j - 1]);
                    }
                }
            },
        }
    }
}

/// Splits `rest` at every `c`, the first piece starting with `cur`; as
/// `str::split` does on `cur + rest`.
pub open spec fn split_from(cur: Seq<char>, rest: Seq<char>, c: char) -> Seq<Seq<char>>
    decreases rest.len(),
{
    if rest.len() == 0 {
        seq![cur]
    } else if rest[0] == c {
        seq![cur] + split_from(Seq::empty(), rest.drop_first(), c)
    } else {
        split_from(cur.push(rest[0]), rest.drop_first(), c)
    }
}

/// The pieces of `s` between occurrences of `c`, as `s.split(c)` gives them
/// (an empty text gives one empty piece).
pub open spec fn split_on(s: Seq<char>, c: char) -> Seq<Seq<char>> {
    split_from(Seq::empty(), s, c)
}

/// The pieces joined with `c` between them, as `join` gives it.
pub open spec fn join(segs: Seq<Seq<char>>, c: char) -> Seq<char>
    decreases segs.len(),
{
    if segs.len() == 0 {
        Seq::empty()
    } else if segs.len() == 1 {
        segs[0]
    } else {
        join(segs.drop_last(), c).push(c) + segs.last()
    }
}

proof fn lemma_split_from_plain(cur: Seq<char>, a: Seq<char>, rest: Seq<char>, c: char)
    requires
        lacks(a, c),
    ensures
        split_from(cur, a + rest, c) == split_from(cur + a, rest, c),
    decreases a.len(),
{
    if a.len() == 0 {
        assert(a + rest =~= rest);
        assert(cur + a =~= cur);
    } else {
        let x = a + rest;
        assert(x[0] == a[0]);
        assert(x.drop_first() =~= a.drop_first() + rest);
        lemma_split_from_plain(cur.push(a[0]), a.drop_first(), rest, c);
        assert(cur.push(a[0]) + a.drop_first() =~= cur + a);
    }
}

proof fn lemma_join_front(segs: Seq<Seq<char>>, c: char)
    requires
        segs.len() >= 2,
    ensures
        join(segs, c) == segs[0].push(c) + join(segs.drop_first(), c),
    decreases segs.len(),
{
    if segs.len() == 2 {
        assert(segs.drop_last() =~= seq![segs[0]]);
        assert(segs.drop_first() =~= seq![segs[1]]);
        assert(join(segs.drop_last(), c) == segs[0]);
        assert(join(segs.drop_first(), c) == segs[1]);
        assert(join(segs, c) == join(segs.drop_last(), c).push(c) + segs.last());
    } else {
        let dl = segs.drop_last();
        let df = segs.drop_first();
        lemma_join_front(dl, c);
        assert(dl.drop_first() =~= df.drop_last());
        assert(df.last() == segs.last());
        assert(dl[0] == segs[0]);
        let x = join(df.drop_last(), c);
        assert(join(dl, c) == segs[0].push(c) + x);
        assert(join(df, c) == x.push(c) + df.last());
        assert(join(segs, c) == join(dl, c).push(c) + segs.last());
        assert((segs[0].push(c) + x).push(c) + segs.last() =~= segs[0].push(c) + (x.push(c) + segs.last()));
    }
}

proof fn lemma_split_join_from(cur: Seq<char>, segs: Seq<Seq<char>>, c: char)
    requires
        segs.len() >= 1,
        forall|i: int| 0 <= i < segs.len() ==> lacks(#[trigger] segs[i], c),
    ensures
        split_from(cur, join(segs, c), c) == seq![cur + segs[0]] + segs.drop_first(),
    decreases segs.len(),
{
    if segs.len() == 1 {
        assert(segs[0] + Seq::<char>::empty() =~= segs[0]);
        lemma_split_from_plain(cur, segs[0], Seq::empty(), c);
        assert(segs.drop_first() =~= Seq::<Seq<char>>::empty());
        assert(seq![cur + segs[0]] + segs.drop_first() =~= seq![cur + segs[0]]);
    } else {
        lemma_join_front(segs, c);
        let rest = join(segs.drop_first(), c);
        let tail = seq![c] + rest;
        assert(segs[0].push(c) + rest =~= segs[0] + tail);
        assert(lacks(segs[0], c));
        lemma_split_from_plain(cur, segs[0], tail, c);
        assert(tail.drop_first() =~= rest);
        let ds = segs.drop_first();
        assert forall|i: int| 0 <= i < ds.len() implies lacks(#[trigger] ds[i], c) by {
            assert(ds[i] == segs[i + 1]);
        }
        lemma_split_join_from(Seq::empty(), ds, c);
        assert(Seq::<char>::empty() + ds[0] =~= ds[0]);
        assert(seq![ds[0]] + ds.drop_first() =~= ds);
        assert(seq![cur + segs[0]] + ds =~= seq![cur + segs[0]] + segs.drop_first());
    }
}

/// Splitting a join at the joining character gives back the pieces when no
/// piece holds that character.
pub proof fn lemma_split_join(segs: Seq<Seq<char>>, c: char)
    requires
        segs.len() >= 1,
        forall|i: int| 0 <= i < segs.len() ==> lacks(#[trigger] segs[i], c),
    ensures
        split_on(join(segs, c), c) == segs,
{
    lemma_split_join_from(Seq::empty(), segs, c);
    assert(Seq::<char>::empty() + segs[0] =~= segs[0]);
    assert(seq![segs[0]] + segs.drop_first() =~= segs);
}

// ---------------------------------------------------------------------
// One step
// ---------------------------------------------------------------------

/// The stored text of one step: `code:param:extra`.
pub open spec fn step_text(t: TaskStep) -> Seq<char> {
    dec(action_code(t.action) as nat).push(':') + dec(t.param as nat).push(':') + dec(t.extra as nat)
}

/// The extra word a segment's third field gives: its value if it parses as
/// a `u32`, else 0 (also when there is no third field).
pub open spec fn extra_of(field: Option<Seq<char>>) -> nat {
    match field {
        Some(e) => match parse_unsigned(e, u32::MAX as nat) {
            Some(v) => v,
            None => 0,
        },
        None => 0,
    }
}

/// The step one stored segment stands for, if any.
pub open spec fn decode_segment(seg: Seq<char>) -> Option<TaskStep> {
    match find_char(seg, ':') {
        None => None,
        Some(i) => {
            let ty_s = seg.take(i);
            let rest = seg.skip(i + 1);
            let param_s = match find_char(rest, ':') {
                Some(j) => rest.take(j),
                None => rest,
            };
            let extra_s = match find_char(rest, ':') {
                Some(j) => Some(rest.skip(j + 1)),
                None => None,
            };
            match (parse_unsigned(ty_s, u8::MAX as nat), parse_unsigned(param_s, u64::MAX as nat)) {
                (Some(ty), Some(p)) => match action_from_code(ty as u8) {
                    Some(a) => Some(TaskStep { action: a, param: p as u64, extra: extra_of(extra_s) as u32 }),
                    None => None,
                },
                _ => None,
            }
        },
    }
}

proof fn lemma_find_after_digits(a: Seq<char>, b: Seq<char>)
    requires
        all_digits(a),
    ensures
        find_char(a.push(':') + b, ':') == Some(a.len() as int),
    decreases a.len(),
{
    let s = a.push(':') + b;
    if a.len() == 0 {
        assert(s[0] == ':');
    } else {
        assert(s[0] == a[0]);
        assert(is_digit(a[0]));
        let a2 = a.drop_first();
        assert(all_digits(a2)) by {
            assert forall|i: int| 0 <= i < a2.len() implies is_digit(#[trigger] a2[i]) by {
                assert(a2[i] == a[i + 1]);
            }
        }
        lemma_find_after_digits(a2, b);
        assert(s.drop_first() =~= a2.push(':') + b);
    }
}

/// A stored step reads back as that step.
pub proof fn lemma_step_roundtrip(t: TaskStep)
    ensures
        decode_segment(step_text(t)) == Some(t),
{
    let c = action_code(t.action) as nat;
    let p = t.param as nat;
    let e = t.extra as nat;
    lemma_dec_digits(c);
    lemma_dec_digits(p);
    lemma_dec_digits(e);
    let seg = step_text(t);
    let rest0 = dec(p).push(':') + dec(e);
    assert(seg =~= dec(c).push(':') + rest0);
    lemma_find_after_digits(dec(c), rest0);
    let i = dec(c).len() as int;
    assert(seg.take(i) =~= dec(c));
    assert(seg.skip(i + 1) =~= rest0);
    lemma_find_after_digits(dec(p), dec(e));
    let j = dec(p).len() as int;
    assert(rest0.take(j) =~= dec(p));
    assert(rest0.skip(j + 1) =~= dec(e));
    lemma_parse_dec(c, u8::MAX as nat);
    lemma_parse_dec(p, u64::MAX as nat);
    lemma_parse_dec(e, u32::MAX as nat);
    lemma_action_code_roundtrip(t.action);
}

proof fn lemma_step_text_lacks_semicolon(t: TaskStep)
    ensures
        lacks(step_text(t), ';'),
        step_text(t).len() > 0,
{
    let c = action_code(t.action) as nat;
    let p = t.param as nat;
    let e = t.extra as nat;
    lemma_dec_digits(c);
    lemma_dec_digits(p);
    lemma_dec_digits(e);
    let a = dec(c).push(':');
    let b = dec(p).push(':');
    let s = step_text(t);
    assert forall|i: int| 0 <= i < s.len() implies s[i] != ';' by {
        if i < a.len() {
            if i < dec(c).len() {
                assert(s[i] == dec(c)[i]);
                assert(is_digit(dec(c)[i]));
            }
        } else if i < a.len() + b.len() {
            let k = i - a.len();
            if k < dec(p).len() {
                assert(s[i] == dec(p)[k]);
                assert(is_digit(dec(p)[k]));
            }
        } else {
            let k = i - a.len() - b.len();
            assert(s[i] == dec(e)[k]);
            assert(is_digit(dec(e)[k]));
        }
    }
}

// ---------------------------------------------------------------------
// Whole lists
// ---------------------------------------------------------------------

/// The stored text of a task list.
pub open spec fn encode_spec(ts: Seq<TaskStep>) -> Seq<char> {
    join(ts.map_values(|t: TaskStep| step_text(t)), ';')
}

/// The steps the segments stand for, skipping those that stand for none.
pub open spec fn decode_segments(segs: Seq<Seq<char>>) -> Seq<TaskStep>
    decreases segs.len(),
{
    if segs.len() == 0 {
        Seq::empty()
    } else {
        match decode_segment(segs[0]) {
            Some(t) => seq![t] + decode_segments(segs.drop_first()),
            None => decode_segments(segs.drop_first()),
        }
    }
}

/// The task list a stored text stands for; the empty text is the empty list.
pub open spec fn decode_spec(raw: Seq<char>) -> Seq<TaskStep> {
    if raw.len() == 0 {
        Seq::empty()
    } else {
        decode_segments(split_on(raw, ';'))
    }
}

proof fn lemma_decode_segments_texts(ts: Seq<TaskStep>)
    ensures
        decode_segments(ts.map_values(|t: TaskStep| step_text(t))) == ts,
    decreases ts.len(),
{
    let segs = ts.map_values(|t: TaskStep| step_text(t));
    if ts.len() > 0 {
        lemma_step_roundtrip(ts[0]);
        assert(segs.drop_first() =~= ts.drop_first().map_values(|t: TaskStep| step_text(t)));
        lemma_decode_segments_texts(ts.drop_first());
        assert(seq![ts[0]] + ts.drop_first() =~= ts);
    } else {
        assert(segs.len() == 0);
    }
}

/// Storing a task list and reading it back gives the same list.
pub proof fn lemma_tasks_roundtrip(ts: Seq<TaskStep>)
    ensures
        decode_spec(encode_spec(ts)) == ts,
{
    let segs = ts.map_values(|t: TaskStep| step_text(t));
    if ts.len() == 0 {
        assert(encode_spec(ts) == Seq::<char>::empty());
        assert(decode_spec(encode_spec(ts)) =~= ts);
    } else {
        assert forall|i: int| 0 <= i < segs.len() implies lacks(#[trigger] segs[i], ';') by {
            lemma_step_text_lacks_semicolon(ts[i]);
        }
        lemma_step_text_lacks_semicolon(ts[0]);
        lemma_join_nonempty(segs, ';');
        lemma_split_join(segs, ';');
        lemma_decode_segments_texts(ts);
    }
}

proof fn lemma_join_nonempty(segs: Seq<Seq<char>>, c: char)
    requires
        segs.len() >= 1,
        segs[0].len() > 0,
    ensures
        join(segs, c).len() > 0,
    decreases segs.len(),
{
    if segs.len() > 1 {
        lemma_join_nonempty(segs.drop_last(), c);
    }
}

// ---------------------------------------------------------------------
// Executable encoding and decoding
// ---------------------------------------------------------------------

/// The stored text of a task list.
pub fn encode_tasks(tasks: &[TaskStep]) -> (r: String)
    ensures
        r@ == encode_spec(tasks@),
{
    let mut out = String::new();
    let mut i: usize = 0;
    while i < tasks.len()
        invariant
            0 <= i <= tasks@.len(),
            out@ == encode_spec(tasks@.take(i as int)),
        decreases tasks@.len() - i,
    {
        let t = tasks[i];
        let ghost prev = out@;
        if i > 0 {
            push_char(&mut out, ';');
        }
        push_dec(&mut out, t.action.code() as u64);
        push_char(&mut out, ':');
        push_dec(&mut out, t.param);
        push_char(&mut out, ':');
        push_dec(&mut out, t.extra as u64);
        proof {
            let segs = tasks@.take(i as int).map_values(|t: TaskStep| step_text(t));
            let segs2 = tasks@.take(i + 1).map_values(|t: TaskStep| step_text(t));
            assert(segs2.drop_last() =~= segs);
            assert(segs2.last() == step_text(t));
            if i == 0 {
                assert(segs2 =~= seq![step_text(t)]);
                assert(out@ =~= step_text(t));
            } else {
                assert(out@ =~= prev.push(';') + step_text(t));
            }
        }
        i = i + 1;
    }
    assert(tasks@.take(tasks@.len() as int) =~= tasks@);
    out
}

/// Splits a text at every occurrence of `c`.
pub fn split_char(s: &str, c: char) -> (r: Vec<String>)
    ensures
        r@.map_values(|x: String| x@) == split_on(s@, c),
{
    let chars = chars_of(s);
    let mut out: Vec<String> = Vec::new();
    let mut cur = String::new();
    let mut i: usize = 0;
    assert(s@.skip(0) =~= s@);
    assert(out@.map_values(|x: String| x@) =~= Seq::<Seq<char>>::empty());
    assert(cur@ =~= Seq::<char>::empty());
    while i < chars.len()
        invariant
            chars@ == s@,
            0 <= i <= chars@.len(),
            out@.map_values(|x: String| x@) + split_from(cur@, s@.skip(i as int), c) == split_on(s@, c),
        decreases chars@.len() - i,
    {
        let ch = chars[i];
        let ghost rest = s@.skip(i as int);
        let ghost old_out = out@;
        proof {
            assert(rest[0] == ch);
            assert(rest.drop_first() =~= s@.skip(i + 1));
        }
        if ch == c {
            let done = cur;
            out.push(done);
            cur = String::new();
            proof {
                assert(out@.map_values(|x: String| x@) =~= old_out.map_values(|x: String| x@).push(done@));
            }
        } else {
            push_char(&mut cur, ch);
        }
        i = i + 1;
    }
    let ghost before = out@;
    out.push(cur);
    proof {
        assert(s@.skip(i as int) =~= Seq::<char>::empty());
        assert(out@.map_values(|x: String| x@) =~= before.map_values(|x: String| x@).push(cur@));
    }
    out
}

/// The first index of `c` in `s`.
fn find_char_exec(s: &str, c: char) -> (r: Option<usize>)
    ensures
        match r {
            Some(i) => find_char(s@, c) == Some(i as int),
            None => find_char(s@, c) is None,
        },
{
    let n = s.unicode_len();
    let mut i: usize = 0;
    while i < n
        invariant
            n == s@.len(),
            0 <= i <= n,
            lacks(s@.take(i as int), c),
        decreases n - i,
    {
        if s.get_char(i) == c {
            proof {
                lemma_find_char(s@, c);
                match find_char(s@, c) {
                    Some(k) => {
                        if k < i {
                            assert(s@.take(i as int)[k] == c);
                        } else if k > i {
                            assert(s@.take(k)[i as int] == c);
                        }
                    },
                    None => {},
                }
            }
            return Some(i);
        }
        let ghost t = s@.take(i + 1);
        assert(t[i as int] == s@[i as int]);
        assert forall|j: int| 0 <= j < i + 1 implies t[j] != c by {
            if j < i {
                assert(t[j] == s@.take(i as int)[j]);
            }
        }
        i = i + 1;
    }
    proof {
        assert(s@.take(n as int) =~= s@);
        lemma_find_char(s@, c);
        match find_char(s@, c) {
            Some(k) => {
                assert(s@[k] == c);
            },
            None => {},
        }
    }
    None
}

/// The step one stored segment stands for, if any.
pub fn decode_step(seg: &str) -> (r: Option<TaskStep>)
    ensures
        r == decode_segment(seg@),
{
    let n = seg.unicode_len();
    let i = match find_char_exec(seg, ':') {
        Some(i) => i,
        None => return None,
    };
    proof {
        lemma_find_char(seg@, ':');
    }
    let ty_s = seg.substring_char(0, i);
    let rest = seg.substring_char(i + 1, n);
    proof {
        assert(ty_s@ =~= seg@.take(i as int));
        assert(rest@ =~= seg@.skip(i + 1));
    }
    let rn = rest.unicode_len();
    let found = find_char_exec(rest, ':');
    proof {
        lemma_find_char(rest@, ':');
    }
    let (param_s, extra): (&str, u32) = match found {
        Some(j) => {
            let p = rest.substring_char(0, j);
            let e = rest.substring_char(j + 1, rn);
            proof {
                assert(p@ =~= rest@.take(j as int));
                assert(e@ =~= rest@.skip(j + 1));
            }
            let ev = match parse_u32(e) {
                Some(v) => v,
                None => 0,
            };
            (p, ev)
        },
        None => (rest, 0),
    };
    let ty = match parse_u8(ty_s) {
        Some(v) => v,
        None => return None,
    };
    let param = match parse_u64(param_s) {
        Some(v) => v,
        None => return None,
    };
    match TaskActionType::from_code(ty) {
        Some(a) => Some(TaskStep { action: a, param, extra }),
        None => None,
    }
}

/// The task list a stored text stands for.
pub fn decode_tasks(raw: &str) -> (r: Vec<TaskStep>)
    ensures
        r@ == decode_spec(raw@),
{
    let mut out: Vec<TaskStep> = Vec::new();
    if raw.unicode_len() == 0 {
        return out;
    }
    let segs = split_char(raw, ';');
    let ghost views = segs@.map_values(|x: String| x@);
    let mut i: usize = 0;
    assert(views.skip(0) =~= views);
    assert(out@ + decode_segments(views) =~= decode_segments(views));
    while i < segs.len()
        invariant
            views == segs@.map_values(|x: String| x@),
            views == split_on(raw@, ';'),
            raw@.len() > 0,
            0 <= i <= segs@.len(),
            out@ + decode_segments(views.skip(i as int)) == decode_spec(raw@),
        decreases segs@.len() - i,
    {
        let ghost old_out = out@;
        proof {
            assert(views.skip(i as int)[0] == segs@[i as int]@);
            assert(views.skip(i as int).drop_first() =~= views.skip(i + 1));
        }
        match decode_step(segs[i].as_str()) {
            Some(t) => {
                out.push(t);
                assert(out@ + decode_segments(views.skip(i + 1)) =~= old_out + decode_segments(views.skip(i as int)));
            },
            None => {},
        }
        i = i + 1;
    }
    proof {
        assert(views.skip(i as int) =~= Seq::<Seq<char>>::empty());
    }
    assert(out@ =~= decode_spec(raw@));
    out
}

} // verus!
