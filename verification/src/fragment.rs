//! Structured fragment values: the tree-shaped payloads that component
//! serialization produces, and their canonical JSON text.

use vstd::prelude::*;
use vstd::string::StrSliceExecFns;
use vstd::string::StringExecFns;

verus! {

/// Relies on std's String::push, which appends the given character to
/// the end of the string.
pub assume_specification[ String::push ](s: &mut String, c: char)
    ensures
        final(s)@ == old(s)@.push(c),
;

/// A structured fragment value: the dynamic value a component field
/// holds and the shape component serialization emits.
pub enum ComponentValue {
    Int(i64),
    Bool(bool),
    Str(String),
    List(Vec<ComponentValue>),
    Object(Vec<(String, ComponentValue)>),
}

/// The mathematical shape of a [`ComponentValue`]: the same tree over
/// unbounded integers and character sequences.
#[verifier::ext_equal]
pub enum FragmentModel {
    Int(int),
    Bool(bool),
    Str(Seq<char>),
    List(Seq<FragmentModel>),
    Object(Seq<(Seq<char>, FragmentModel)>),
}

/// The model of a fragment value: the same tree, element by element.
pub open spec fn value_model(v: ComponentValue) -> FragmentModel
    decreases v,
    via value_model_dec
{
    match v {
        ComponentValue::Int(i) => FragmentModel::Int(i as int),
        ComponentValue::Bool(b) => FragmentModel::Bool(b),
        ComponentValue::Str(s) => FragmentModel::Str(s@),
        ComponentValue::List(l) => FragmentModel::List(list_models(l@)),
        ComponentValue::Object(o) => FragmentModel::Object(pair_models(o@)),
    }
}

/// The models of a sequence of fragment values, in order.
pub open spec fn list_models(s: Seq<ComponentValue>) -> Seq<FragmentModel>
    decreases s,
    via list_models_dec
{
    if s.len() == 0 {
        Seq::empty()
    } else {
        list_models(s.drop_last()).push(value_model(s.last()))
    }
}

/// The models of a sequence of keyed fragment values, in order.
pub open spec fn pair_models(s: Seq<(String, ComponentValue)>) -> Seq<
    (Seq<char>, FragmentModel),
>
    decreases s,
    via pair_models_dec
{
    if s.len() == 0 {
        Seq::empty()
    } else {
        pair_models(s.drop_last()).push((s.last().0@, value_model(s.last().1)))
    }
}

#[via_fn]
proof fn value_model_dec(v: ComponentValue) {
    match v {
        ComponentValue::List(l) => {
            assert(decreases_to!(v => l));
            assert(decreases_to!(l => l@));
        },
        ComponentValue::Object(o) => {
            assert(decreases_to!(v => o));
            assert(decreases_to!(o => o@));
        },
        _ => {},
    }
}

#[via_fn]
proof fn list_models_dec(s: Seq<ComponentValue>) {
    if s.len() != 0 {
        assert(decreases_to!(s => s.subrange(0, s.len() - 1)));
        assert(decreases_to!(s => s[s.len() - 1]));
    }
}

#[via_fn]
proof fn pair_models_dec(s: Seq<(String, ComponentValue)>) {
    if s.len() != 0 {
        assert(decreases_to!(s => s.subrange(0, s.len() - 1)));
        assert(decreases_to!(s => s[s.len() - 1]));
        assert(decreases_to!(s[s.len() - 1] => s[s.len() - 1].1));
    }
}

/// Each position of `list_models` carries the model of the same position
/// of the underlying sequence.
pub proof fn lemma_list_models(s: Seq<ComponentValue>)
    ensures
        list_models(s).len() == s.len(),
        forall|i: int| 0 <= i < s.len() ==> list_models(s)[i] == value_model(s[i]),
    decreases s.len(),
{
    if s.len() != 0 {
        lemma_list_models(s.drop_last());
    }
}

/// Each position of `pair_models` carries the key's characters and the
/// value's model of the same position of the underlying sequence.
pub proof fn lemma_pair_models(s: Seq<(String, ComponentValue)>)
    ensures
        pair_models(s).len() == s.len(),
        forall|i: int|
            0 <= i < s.len() ==> pair_models(s)[i] == (s[i].0@, value_model(s[i].1)),
    decreases s.len(),
{
    if s.len() != 0 {
        lemma_pair_models(s.drop_last());
    }
}

impl View for ComponentValue {
    type V = FragmentModel;

    open spec fn view(&self) -> FragmentModel {
        value_model(*self)
    }
}

/// The zero-value of each shape: numeric 0, boolean false, the empty
/// string, the empty list, the empty object. An optional field whose
/// value is its zero-value is omitted from serialized output.
pub open spec fn is_zero_model(m: FragmentModel) -> bool {
    match m {
        FragmentModel::Int(i) => i == 0,
        FragmentModel::Bool(b) => !b,
        FragmentModel::Str(s) => s.len() == 0,
        FragmentModel::List(l) => l.len() == 0,
        FragmentModel::Object(o) => o.len() == 0,
    }
}

/// Whether this value is its shape's zero-value.
pub fn is_zero_value(v: &ComponentValue) -> (r: bool)
    ensures
        r == is_zero_model(v@),
{
    proof {
        let gv = *v;
        match gv {
            ComponentValue::List(l) => lemma_list_models(l@),
            ComponentValue::Object(o) => lemma_pair_models(o@),
            _ => (),
        }
    }
    match v {
        ComponentValue::Int(i) => *i == 0,
        ComponentValue::Bool(b) => !*b,
        ComponentValue::Str(s) => s.as_str().is_empty(),
        ComponentValue::List(l) => l.len() == 0,
        ComponentValue::Object(o) => o.len() == 0,
    }
}

impl Clone for ComponentValue {
    /// The clone has the same model, so it serializes identically.
    fn clone(&self) -> (r: Self)
        ensures
            r@ == self@,
        decreases *self,
    {
        match self {
            ComponentValue::Int(i) => ComponentValue::Int(*i),
            ComponentValue::Bool(b) => ComponentValue::Bool(*b),
            ComponentValue::Str(s) => ComponentValue::Str(s.clone()),
            ComponentValue::List(l) => {
                let mut out: Vec<ComponentValue> = Vec::new();
                let mut i: usize = 0;
                while i < l.len()
                    invariant
                        i <= l.len(),
                        out@.len() == i,
                        *self == ComponentValue::List(*l),
                        forall|j: int| 0 <= j < i ==> out@[j]@ == l@[j]@,
                    decreases l.len() - i,
                {
                    proof {
                        let gv = *self;
                        match gv {
                            ComponentValue::List(ll) => {
                                assert(decreases_to!(gv => ll));
                                assert(decreases_to!(ll => ll@));
                                assert(decreases_to!(ll@ => ll@[i as int]));
                            },
                            _ => assert(false),
                        }
                    }
                    out.push(l[i].clone());
                    i = i + 1;
                }
                let r = ComponentValue::List(out);
                proof {
                    lemma_list_models(out@);
                    lemma_list_models(l@);
                    assert(list_models(out@) =~= list_models(l@));
                    assert(r@ =~= self@);
                }
                r
            },
            ComponentValue::Object(o) => {
                let mut out: Vec<(String, ComponentValue)> = Vec::new();
                let mut i: usize = 0;
                while i < o.len()
                    invariant
                        i <= o.len(),
                        out@.len() == i,
                        *self == ComponentValue::Object(*o),
                        forall|j: int|
                            0 <= j < i ==> out@[j].0@ == o@[j].0@ && out@[j].1@ == o@[j].1@,
                    decreases o.len() - i,
                {
                    proof {
                        let gv = *self;
                        match gv {
                            ComponentValue::Object(oo) => {
                                assert(decreases_to!(gv => oo));
                                assert(decreases_to!(oo => oo@));
                                assert(decreases_to!(oo@ => oo@[i as int]));
                                assert(decreases_to!(oo@[i as int] => oo@[i as int].1));
                            },
                            _ => assert(false),
                        }
                    }
                    let key = o[i].0.clone();
                    let val = o[i].1.clone();
                    out.push((key, val));
                    i = i + 1;
                }
                let r = ComponentValue::Object(out);
                proof {
                    lemma_pair_models(out@);
                    lemma_pair_models(o@);
                    assert(pair_models(out@) =~= pair_models(o@));
                    assert(r@ =~= self@);
                }
                r
            },
        }
    }
}

/// The escape of one character inside JSON string text: quote and
/// backslash are preceded by a backslash, everything else stands as is.
pub open spec fn esc_char(c: char) -> Seq<char> {
    if c == '"' {
        seq!['\\', '"']
    } else if c == '\\' {
        seq!['\\', '\\']
    } else {
        seq![c]
    }
}

/// The escape of a whole string's characters.
pub open spec fn esc_chars(s: Seq<char>) -> Seq<char>
    decreases s.len(),
{
    if s.len() == 0 {
        Seq::empty()
    } else {
        esc_chars(s.drop_last()) + esc_char(s.last())
    }
}

/// The canonical JSON text of a fragment: no whitespace, keys and
/// elements in their given order, strings quoted and escaped.
pub open spec fn json_chars(m: FragmentModel) -> Seq<char>
    decreases m,
{
    match m {
        FragmentModel::Int(i) => crate::decimal::dec_chars_signed(i),
        FragmentModel::Bool(b) => if b {
            seq!['t', 'r', 'u', 'e']
        } else {
            seq!['f', 'a', 'l', 's', 'e']
        },
        FragmentModel::Str(s) => seq!['"'] + esc_chars(s) + seq!['"'],
        FragmentModel::List(l) => seq!['['] + json_list_chars(l) + seq![']'],
        FragmentModel::Object(o) => seq!['{'] + json_object_chars(o) + seq!['}'],
    }
}

/// The comma-separated JSON text of list elements.
pub open spec fn json_list_chars(l: Seq<FragmentModel>) -> Seq<char>
    decreases l,
    via json_list_chars_dec
{
    if l.len() == 0 {
        Seq::empty()
    } else if l.len() == 1 {
        json_chars(l.last())
    } else {
        json_list_chars(l.drop_last()) + seq![','] + json_chars(l.last())
    }
}

/// The JSON text of one `key:value` member.
pub open spec fn json_pair_chars(p: (Seq<char>, FragmentModel)) -> Seq<char>
    decreases p,
{
    seq!['"'] + esc_chars(p.0) + seq!['"', ':'] + json_chars(p.1)
}

/// The comma-separated JSON text of object members.
pub open spec fn json_object_chars(o: Seq<(Seq<char>, FragmentModel)>) -> Seq<char>
    decreases o,
    via json_object_chars_dec
{
    if o.len() == 0 {
        Seq::empty()
    } else if o.len() == 1 {
        json_pair_chars(o.last())
    } else {
        json_object_chars(o.drop_last()) + seq![','] + json_pair_chars(o.last())
    }
}

#[via_fn]
proof fn json_list_chars_dec(l: Seq<FragmentModel>) {
    if l.len() != 0 {
        assert(decreases_to!(l => l.subrange(0, l.len() - 1)));
        assert(decreases_to!(l => l[l.len() - 1]));
    }
}

#[via_fn]
proof fn json_object_chars_dec(o: Seq<(Seq<char>, FragmentModel)>) {
    if o.len() != 0 {
        assert(decreases_to!(o => o.subrange(0, o.len() - 1)));
        assert(decreases_to!(o => o[o.len() - 1]));
    }
}

/// Appends the escaped characters of `s` to `out`.
fn append_escaped(out: &mut String, s: &str)
    ensures
        final(out)@ == old(out)@ + esc_chars(s@),
{
    let n = s.unicode_len();
    let mut i: usize = 0;
    while i < n
        invariant
            i <= n,
            n == s@.len(),
            out@ == old(out)@ + esc_chars(s@.take(i as int)),
        decreases n - i,
    {
        proof {
            reveal_strlit("\\\"");
            reveal_strlit("\\\\");
        }
        let c = s.get_char(i);
        if c == '"' {
            out.append("\\\"");
        } else if c == '\\' {
            out.append("\\\\");
        } else {
            out.push(c);
        }
        proof {
            assert(s@.take(i + 1 as int).drop_last() =~= s@.take(i as int));
            assert(s@.take(i + 1 as int).last() == s@[i as int]);
            assert(out@ =~= old(out)@ + esc_chars(s@.take(i + 1 as int)));
        }
        i = i + 1;
    }
    proof {
        assert(s@.take(n as int) =~= s@);
    }
}

/// Appends the quoted, escaped JSON text of `s` to `out`.
fn append_quoted(out: &mut String, s: &str)
    ensures
        final(out)@ == old(out)@ + seq!['"'] + esc_chars(s@) + seq!['"'],
{
    proof {
        reveal_strlit("\"");
    }
    out.append("\"");
    append_escaped(out, s);
    out.append("\"");
    proof {
        assert(out@ =~= old(out)@ + seq!['"'] + esc_chars(s@) + seq!['"']);
    }
}

/// Appends the canonical JSON text of `v` to `out`.
pub fn append_value(out: &mut String, v: &ComponentValue)
    ensures
        final(out)@ == old(out)@ + json_chars(v@),
    decreases *v,
{
    proof {
        reveal_strlit("true");
        reveal_strlit("false");
        reveal_strlit("[");
        reveal_strlit("]");
        reveal_strlit("{");
        reveal_strlit("}");
    }
    match v {
        ComponentValue::Int(i) => {
            let digits = crate::decimal::render_i64(*i);
            out.append(digits.as_str());
        },
        ComponentValue::Bool(b) => {
            if *b {
                out.append("true");
            } else {
                out.append("false");
            }
            proof {
                assert(out@ =~= old(out)@ + json_chars(v@));
            }
        },
        ComponentValue::Str(s) => {
            append_quoted(out, s.as_str());
            proof {
                assert(out@ =~= old(out)@ + json_chars(v@));
            }
        },
        ComponentValue::List(l) => {
            let ghost models = list_models(l@);
            proof {
                lemma_list_models(l@);
            }
            out.append("[");
            let mut i: usize = 0;
            while i < l.len()
                invariant
                    i <= l.len(),
                    *v == ComponentValue::List(*l),
                    models == list_models(l@),
                    models.len() == l@.len(),
                    forall|j: int| 0 <= j < l@.len() ==> models[j] == value_model(l@[j]),
                    out@ == old(out)@ + seq!['['] + json_list_chars(models.take(i as int)),
                decreases l.len() - i,
            {
                proof {
                    reveal_strlit(",");
                }
                if i > 0 {
                    out.append(",");
                }
                proof {
                    let gv = *v;
                    match gv {
                        ComponentValue::List(ll) => {
                            assert(decreases_to!(gv => ll));
                            assert(decreases_to!(ll => ll@));
                            assert(decreases_to!(ll@ => ll@[i as int]));
                        },
                        _ => assert(false),
                    }
                }
                append_value(out, &l[i]);
                proof {
                    assert(models.take(i + 1 as int).drop_last() =~= models.take(i as int));
                    assert(models.take(i + 1 as int).last() == models[i as int]);
                    assert(out@ =~= old(out)@ + seq!['['] + json_list_chars(
                        models.take(i + 1 as int),
                    ));
                }
                i = i + 1;
            }
            out.append("]");
            proof {
                assert(models.take(models.len() as int) =~= models);
                assert(out@ =~= old(out)@ + json_chars(v@));
            }
        },
        ComponentValue::Object(o) => {
            let ghost models = pair_models(o@);
            proof {
                lemma_pair_models(o@);
            }
            out.append("{");
            let mut i: usize = 0;
            while i < o.len()
                invariant
                    i <= o.len(),
                    *v == ComponentValue::Object(*o),
                    models == pair_models(o@),
                    models.len() == o@.len(),
                    forall|j: int|
                        0 <= j < o@.len() ==> models[j] == (o@[j].0@, value_model(o@[j].1)),
                    out@ == old(out)@ + seq!['{'] + json_object_chars(models.take(i as int)),
                decreases o.len() - i,
            {
                proof {
                    reveal_strlit(",");
                    reveal_strlit(":");
                }
                if i > 0 {
                    out.append(",");
                }
                append_quoted(out, o[i].0.as_str());
                out.append(":");
                proof {
                    let gv = *v;
                    match gv {
                        ComponentValue::Object(oo) => {
                            assert(decreases_to!(gv => oo));
                            assert(decreases_to!(oo => oo@));
                            assert(decreases_to!(oo@ => oo@[i as int]));
                            assert(decreases_to!(oo@[i as int] => oo@[i as int].1));
                        },
                        _ => assert(false),
                    }
                }
                append_value(out, &o[i].1);
                proof {
                    let t1 = models.take(i + 1 as int);
                    assert(t1.drop_last() =~= models.take(i as int));
                    assert(t1.last() == models[i as int]);
                    assert(models[i as int].0 == o@[i as int].0@);
                    assert(models[i as int].1 == value_model(o@[i as int].1));
                    if i == 0 {
                        assert(json_object_chars(t1) == json_pair_chars(models[0]));
                    } else {
                        assert(json_object_chars(t1) == json_object_chars(models.take(i as int))
                            + seq![','] + json_pair_chars(models[i as int]));
                    }
                    assert(out@ =~= old(out)@ + seq!['{'] + json_object_chars(t1));
                }
                i = i + 1;
            }
            out.append("}");
            proof {
                assert(models.take(models.len() as int) =~= models);
                assert(out@ =~= old(out)@ + json_chars(v@));
            }
        },
    }
}

/// The canonical JSON text of a fragment value.
pub fn render_value(v: &ComponentValue) -> (r: String)
    ensures
        r@ == json_chars(v@),
{
    let mut out = String::new();
    append_value(&mut out, v);
    proof {
        assert(out@ =~= json_chars(v@));
    }
    out
}

} // verus!
