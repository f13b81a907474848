//! Messages that a client can translate: a key, the values that fill it, and
//! the English sentence.
use vstd::prelude::*;
use vstd::string::*;

use crate::text;
use crate::text::Class;

verus! {

/// One named value of a message.
#[derive(Clone, Debug, PartialEq, Eq)]
pub struct Param {
    pub name: String,
    pub value: String,
}

/// Name and value of each parameter.
pub open spec fn pairs(params: Seq<Param>) -> Seq<(Seq<char>, Seq<char>)> {
    Seq::new(params.len(), |i: int| (params[i].name@, params[i].value@))
}

pub fn param(name: &str, value: String) -> (r: Param)
    ensures
        r.name@ == name@,
        r.value == value,
{
    Param { name: String::from_str(name), value }
}

pub fn one(a: Param) -> (r: Vec<Param>)
    ensures
        pairs(r@) == seq![(a.name@, a.value@)],
{
    let mut r: Vec<Param> = Vec::new();
    r.push(a);
    proof {
        assert(pairs(r@) =~= seq![(a.name@, a.value@)]);
    }
    r
}

pub fn two(a: Param, b: Param) -> (r: Vec<Param>)
    ensures
        pairs(r@) == seq![(a.name@, a.value@), (b.name@, b.value@)],
{
    let mut r: Vec<Param> = Vec::new();
    r.push(a);
    r.push(b);
    proof {
        assert(pairs(r@) =~= seq![(a.name@, a.value@), (b.name@, b.value@)]);
    }
    r
}

pub fn three(a: Param, b: Param, c: Param) -> (r: Vec<Param>)
    ensures
        pairs(r@) == seq![(a.name@, a.value@), (b.name@, b.value@), (c.name@, c.value@)],
{
    let mut r: Vec<Param> = Vec::new();
    r.push(a);
    r.push(b);
    r.push(c);
    proof {
        assert(pairs(r@) =~= seq![(a.name@, a.value@), (b.name@, b.value@), (c.name@, c.value@)]);
    }
    r
}

pub fn four(a: Param, b: Param, c: Param, d: Param) -> (r: Vec<Param>)
    ensures
        pairs(r@) == seq![
            (a.name@, a.value@),
            (b.name@, b.value@),
            (c.name@, c.value@),
            (d.name@, d.value@),
        ],
{
    let mut r: Vec<Param> = Vec::new();
    r.push(a);
    r.push(b);
    r.push(c);
    r.push(d);
    proof {
        assert(pairs(r@) =~= seq![
            (a.name@, a.value@),
            (b.name@, b.value@),
            (c.name@, c.value@),
            (d.name@, d.value@),
        ]);
    }
    r
}

pub fn six(a: Param, b: Param, c: Param, d: Param, e: Param, f: Param) -> (r: Vec<Param>)
    ensures
        pairs(r@) == seq![
            (a.name@, a.value@),
            (b.name@, b.value@),
            (c.name@, c.value@),
            (d.name@, d.value@),
            (e.name@, e.value@),
            (f.name@, f.value@),
        ],
{
    let mut r: Vec<Param> = Vec::new();
    r.push(a);
    r.push(b);
    r.push(c);
    r.push(d);
    r.push(e);
    r.push(f);
    proof {
        assert(pairs(r@) =~= seq![
            (a.name@, a.value@),
            (b.name@, b.value@),
            (c.name@, c.value@),
            (d.name@, d.value@),
            (e.name@, e.value@),
            (f.name@, f.value@),
        ]);
    }
    r
}

// --- templates -----------------------------------------------------------

/// The value of the first parameter of that name.
pub open spec fn value_of(params: Seq<(Seq<char>, Seq<char>)>, name: Seq<char>) -> Option<Seq<char>>
    decreases params.len(),
{
    if params.len() == 0 {
        None
    } else if params[0].0 == name {
        Some(params[0].1)
    } else {
        value_of(params.skip(1), name)
    }
}

/// A template with each `{name}` replaced by the value of that parameter. A
/// name that no parameter has stays as it is written, and values are not
/// filled in turn.
pub open spec fn fill(t: Seq<char>, params: Seq<(Seq<char>, Seq<char>)>) -> Seq<char>
    decreases t.len(),
    via fill_decreases
{
    if t.len() == 0 {
        seq![]
    } else if t[0] != '{' {
        seq![t[0]] + fill(t.skip(1), params)
    } else {
        match text::position(t, Class::Is('}'), 1) {
            None => seq![t[0]] + fill(t.skip(1), params),
            Some(j) => {
                (match value_of(params, t.subrange(1, j)) {
                    Some(v) => v,
                    None => t.take(j + 1),
                }) + fill(t.skip(j + 1), params)
            },
        }
    }
}

#[via_fn]
proof fn fill_decreases(t: Seq<char>, params: Seq<(Seq<char>, Seq<char>)>) {
    text::lemma_position(t, Class::Is('}'), 1);
}

fn lookup(params: &Vec<Param>, name: &Vec<char>) -> (r: Option<Vec<char>>)
    ensures
        match r {
            Some(v) => value_of(pairs(params@), name@) == Some(v@),
            None => value_of(pairs(params@), name@) is None,
        },
{
    let n: usize = params.len();
    let mut i: usize = 0;
    proof {
        assert(pairs(params@).skip(0) =~= pairs(params@));
    }
    while i < n
        invariant
            n == params@.len(),
            i <= n,
            value_of(pairs(params@), name@) == value_of(pairs(params@).skip(i as int), name@),
        decreases n - i,
    {
        proof {
            assert(pairs(params@).skip(i as int)[0] == pairs(params@)[i as int]);
            assert(pairs(params@).skip(i as int).skip(1) =~= pairs(params@).skip(i + 1));
        }
        let candidate = text::chars_of(params[i].name.as_str());
        if text::same_chars(&candidate, name) {
            return Some(text::chars_of(params[i].value.as_str()));
        }
        i = i + 1;
    }
    None
}

/// Fills a template.
pub fn render(template: &str, params: &Vec<Param>) -> (r: String)
    ensures
        r@ == fill(template@, pairs(params@)),
{
    let t = text::chars_of(template);
    let n: usize = t.len();
    let ghost p = pairs(params@);
    let mut out: Vec<char> = Vec::new();
    let mut i: usize = 0;
    proof {
        assert(t@.skip(0) =~= t@);
        assert(out@ + fill(t@.skip(0), p) =~= fill(t@, p));
    }
    while i < n
        invariant
            n == t@.len(),
            i <= n,
            p == pairs(params@),
            out@ + fill(t@.skip(i as int), p) == fill(t@, p),
        decreases n - i,
    {
        let ghost rest = t@.skip(i as int);
        let ghost before = out@;
        proof {
            assert(rest[0] == t@[i as int]);
            assert(rest.skip(1) =~= t@.skip(i + 1));
            text::lemma_position_shift(t@, Class::Is('}'), i as int, 1);
        }
        if t[i] != '{' {
            out.push(t[i]);
            proof {
                assert(out@ + fill(t@.skip(i + 1), p) =~= before + fill(rest, p));
            }
            i = i + 1;
        } else {
            match text::position_of(&t, Class::Is('}'), i + 1) {
                None => {
                    out.push(t[i]);
                    proof {
                        assert(out@ + fill(t@.skip(i + 1), p) =~= before + fill(rest, p));
                    }
                    i = i + 1;
                },
                Some(j) => {
                    let name = text::slice(&t, i + 1, j);
                    proof {
                        assert(rest.subrange(1, j - i) =~= t@.subrange(i + 1, j as int));
                        assert(rest.take(j - i + 1) =~= t@.subrange(i as int, j + 1));
                        assert(rest.skip(j - i + 1) =~= t@.skip(j + 1));
                    }
                    match lookup(params, &name) {
                        Some(v) => {
                            text::push_all(&mut out, &v);
                        },
                        None => {
                            let kept = text::slice(&t, i, j + 1);
                            text::push_all(&mut out, &kept);
                        },
                    }
                    proof {
                        assert(out@ + fill(t@.skip(j + 1), p) =~= before + fill(rest, p));
                    }
                    i = j + 1;
                },
            }
        }
    }
    proof {
        assert(out@ + fill(t@.skip(n as int), p) =~= out@);
    }
    text::string_of(&out)
}

// --- messages ------------------------------------------------------------

/// A message as clients receive it.
#[derive(Clone, Debug, PartialEq, Eq)]
pub struct Msg {
    pub key: String,
    pub params: Vec<Param>,
    pub text: String,
}

/// What a message says.
#[verifier::ext_equal]
pub struct MsgView {
    pub key: Seq<char>,
    pub params: Seq<(Seq<char>, Seq<char>)>,
    pub text: Seq<char>,
}

impl View for Msg {
    type V = MsgView;

    open spec fn view(&self) -> MsgView {
        MsgView { key: self.key@, params: pairs(self.params@), text: self.text@ }
    }
}

/// The message of a key, whose text is the filled template.
pub open spec fn message(
    key: Seq<char>,
    params: Seq<(Seq<char>, Seq<char>)>,
    template: Seq<char>,
) -> MsgView {
    MsgView { key, params, text: fill(template, params) }
}

/// A message whose text is given as it is and has no translation.
pub open spec fn literal(said: Seq<char>) -> MsgView {
    MsgView { key: seq![], params: seq![], text: said }
}

/// The messages of a list.
pub open spec fn says(list: Seq<Msg>) -> Seq<MsgView> {
    Seq::new(list.len(), |i: int| list[i]@)
}

pub open spec fn opt_says(m: Option<Msg>) -> Option<MsgView> {
    match m {
        Some(m) => Some(m@),
        None => None,
    }
}

pub fn copy_params(params: &Vec<Param>) -> (r: Vec<Param>)
    ensures
        pairs(r@) == pairs(params@),
{
    let n: usize = params.len();
    let mut out: Vec<Param> = Vec::new();
    let mut i: usize = 0;
    while i < n
        invariant
            n == params@.len(),
            i <= n,
            pairs(out@) == pairs(params@).take(i as int),
        decreases n - i,
    {
        let ghost before = out@;
        out.push(Param { name: params[i].name.clone(), value: params[i].value.clone() });
        i = i + 1;
        proof {
            assert(pairs(out@) =~= pairs(before).push((params@[i - 1].name@, params@[i - 1].value@)));
            assert(pairs(out@) =~= pairs(params@).take(i as int));
        }
    }
    proof {
        assert(pairs(params@).take(n as int) =~= pairs(params@));
    }
    out
}

impl Msg {
    pub fn new(key: &str, params: Vec<Param>, template: &str) -> (r: Msg)
        ensures
            r@ == message(key@, pairs(params@), template@),
    {
        let text = render(template, &params);
        Msg { key: String::from_str(key), params, text }
    }

    /// A message without parameters, whose text is the template itself.
    pub fn plain(key: &str, template: &str) -> (r: Msg)
        ensures
            r@ == message(key@, seq![], template@),
    {
        let params: Vec<Param> = Vec::new();
        proof {
            assert(pairs(params@) =~= seq![]);
        }
        Msg::new(key, params, template)
    }

    pub fn literal(said: String) -> (r: Msg)
        ensures
            r@ == literal(said@),
    {
        let params: Vec<Param> = Vec::new();
        proof {
            assert(pairs(params@) =~= seq![]);
        }
        let key = String::new();
        proof {
            assert(key@ =~= seq![]);
        }
        Msg { key, params, text: said }
    }

    /// A message that says the same.
    pub fn copy(&self) -> (r: Msg)
        ensures
            r@ == self@,
    {
        Msg {
            key: self.key.clone(),
            params: copy_params(&self.params),
            text: self.text.clone(),
        }
    }
}

/// A list of no messages.
pub fn none() -> (r: Vec<Msg>)
    ensures
        says(r@) == Seq::<MsgView>::empty(),
{
    let r: Vec<Msg> = Vec::new();
    proof {
        assert(says(r@) =~= Seq::<MsgView>::empty());
    }
    r
}

/// A list of one message.
pub fn just(m: Msg) -> (r: Vec<Msg>)
    ensures
        says(r@) == seq![m@],
{
    let mut r: Vec<Msg> = Vec::new();
    r.push(m);
    proof {
        assert(says(r@) =~= seq![m@]);
    }
    r
}

/// A list that says the same.
pub fn copy_all(list: &Vec<Msg>) -> (r: Vec<Msg>)
    ensures
        says(r@) == says(list@),
{
    let n: usize = list.len();
    let mut out: Vec<Msg> = Vec::new();
    let mut i: usize = 0;
    while i < n
        invariant
            n == list@.len(),
            i <= n,
            says(out@) == says(list@).take(i as int),
        decreases n - i,
    {
        let ghost before = out@;
        out.push(list[i].copy());
        i = i + 1;
        proof {
            assert(says(out@) =~= says(before).push(list@[i - 1]@));
            assert(says(out@) =~= says(list@).take(i as int));
        }
    }
    proof {
        assert(says(list@).take(n as int) =~= says(list@));
    }
    out
}

/// A name in braces is replaced by its value, what stands before it is kept, and
/// the rest is treated in the same way. A name without a value stays as it is,
/// braces and all.
#[verifier::spinoff_prover]
#[verifier::rlimit(60)]
pub proof fn law_names_in_braces_are_filled_in(
    before: Seq<char>,
    name: Seq<char>,
    after: Seq<char>,
    params: Seq<(Seq<char>, Seq<char>)>,
    i: int,
)
    requires
        !before.contains('{'),
        !name.contains('}'),
    ensures
        0 <= i < params.len() && params[i].0 == name && (forall|j: int|
            0 <= j < i ==> (#[trigger] params[j]).0 != name) ==> fill(
            before + seq!['{'] + name + seq!['}'] + after,
            params,
        ) == before + params[i].1 + fill(after, params),
        (forall|j: int| 0 <= j < params.len() ==> (#[trigger] params[j]).0 != name) ==> fill(
            before + seq!['{'] + name + seq!['}'] + after,
            params,
        ) == before + seq!['{'] + name + seq!['}'] + fill(after, params),
    decreases before.len(),
{
    let t = before + seq!['{'] + name + seq!['}'] + after;
    if before.len() > 0 {
        let rest = before.skip(1);
        assert(before[0] != '{') by {
            assert(before.contains(before[0]));
        }
        assert(!rest.contains('{')) by {
            if rest.contains('{') {
                let j = choose|j: int| 0 <= j < rest.len() && rest[j] == '{';
                assert(before[j + 1] == '{');
            }
        }
        law_names_in_braces_are_filled_in(rest, name, after, params, i);
        let u = rest + seq!['{'] + name + seq!['}'] + after;
        assert(t.skip(1) =~= u);
        assert(fill(t, params) == seq![t[0]] + fill(u, params));
        if 0 <= i < params.len() {
            assert(seq![before[0]] + (rest + params[i].1 + fill(after, params)) =~= before
                + params[i].1 + fill(after, params));
        }
        assert(seq![before[0]] + (rest + seq!['{'] + name + seq!['}'] + fill(after, params))
            =~= before + seq!['{'] + name + seq!['}'] + fill(after, params));
    } else {
        let k = Class::Is('}');
        let at = 1 + name.len() as int;
        assert(t[at] == '}');
        text::lemma_position(t, k, 1);
        let p = text::position(t, k, 1)->0;
        if p < at {
            assert(name[p - 1] == '}');
            assert(name.contains('}'));
        }
        if at < p {
            assert(!k.holds(t[at]));
        }
        assert(p == at);
        assert(t.subrange(1, at) =~= name);
        assert(t.skip(at + 1) =~= after);
        assert(t.take(at + 1) =~= before + seq!['{'] + name + seq!['}']);
        lemma_value_of(params, name);
        if 0 <= i < params.len() && params[i].0 == name && (forall|j: int|
            0 <= j < i ==> (#[trigger] params[j]).0 != name) {
            lemma_first_value(params, name, i);
            assert(before + params[i].1 =~= params[i].1);
        }
    }
}

proof fn lemma_value_of(params: Seq<(Seq<char>, Seq<char>)>, name: Seq<char>)
    ensures
        (forall|j: int| 0 <= j < params.len() ==> (#[trigger] params[j]).0 != name) ==> value_of(
            params,
            name,
        ) is None,
    decreases params.len(),
{
    if params.len() > 0 && (forall|j: int|
        0 <= j < params.len() ==> (#[trigger] params[j]).0 != name) {
        assert(params[0].0 != name);
        assert forall|j: int| 0 <= j < params.skip(1).len() implies (
        #[trigger] params.skip(1)[j]).0 != name by {
            assert(params.skip(1)[j] == params[j + 1]);
        }
        lemma_value_of(params.skip(1), name);
    }
}

proof fn lemma_first_value(params: Seq<(Seq<char>, Seq<char>)>, name: Seq<char>, i: int)
    requires
        0 <= i < params.len(),
        params[i].0 == name,
        forall|j: int| 0 <= j < i ==> (#[trigger] params[j]).0 != name,
    ensures
        value_of(params, name) == Some(params[i].1),
    decreases params.len(),
{
    if i > 0 {
        assert(params[0].0 != name);
        assert forall|j: int| 0 <= j < i - 1 implies (#[trigger] params.skip(1)[j]).0 != name by {
            assert(params.skip(1)[j] == params[j + 1]);
        }
        lemma_first_value(params.skip(1), name, i - 1);
    }
}

/// A template without a name in braces is said as it is written.
pub proof fn law_plain_templates_stay(t: Seq<char>, params: Seq<(Seq<char>, Seq<char>)>)
    requires
        !t.contains('}') || !t.contains('{'),
    ensures
        fill(t, params) == t,
    decreases t.len(),
{
    if t.len() > 0 {
        let rest = t.skip(1);
        if rest.contains('}') {
            let j = choose|j: int| 0 <= j < rest.len() && rest[j] == '}';
            assert(t[j + 1] == '}');
        }
        if rest.contains('{') {
            let j = choose|j: int| 0 <= j < rest.len() && rest[j] == '{';
            assert(t[j + 1] == '{');
        }
        law_plain_templates_stay(rest, params);
        assert(seq![t[0]] + rest =~= t);
        text::lemma_position(t, Class::Is('}'), 1);
        if t[0] == '{' {
            assert(t.contains('{'));
            if text::position(t, Class::Is('}'), 1) is Some {
                assert(t.contains(t[text::position(t, Class::Is('}'), 1)->0]));
            }
        }
    }
}

} // verus!
