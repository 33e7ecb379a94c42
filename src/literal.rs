use vstd::prelude::*;
use vstd::string::{StrSliceExecFns, StringExecFns};

use crate::model::{lemma_array_model, lemma_object_model, value_model, field_models, models, ValueModel};
use crate::text::{decimal, push_decimal};
use crate::value::Value;

verus! {

broadcast use vstd::std_specs::vec::axiom_vec_index_decreases, vstd::std_specs::vec::axiom_vec_decreases_to_view;

/// One character as it stands inside a quoted string: `"` and `\` escaped.
pub open spec fn escaped_char(c: char) -> Seq<char> {
    if c == '"' || c == '\\' {
        seq!['\\', c]
    } else {
        seq![c]
    }
}

/// The characters of `s` as they stand inside a quoted string.
pub open spec fn escaped(s: Seq<char>) -> Seq<char>
    decreases s.len(),
{
    if s.len() == 0 {
        Seq::empty()
    } else {
        escaped(s.drop_last()) + escaped_char(s.last())
    }
}

/// `s` as a quoted string.
pub open spec fn quoted(s: Seq<char>) -> Seq<char> {
    seq!['"'] + escaped(s) + seq!['"']
}

/// The decimal text of a signed integer.
pub open spec fn int_text(n: i64) -> Seq<char> {
    if n < 0 {
        seq!['-'] + decimal((-(n as int)) as nat)
    } else {
        decimal(n as nat)
    }
}

/// The JSON text of a value: `null`, `true`, `false`, numbers as written,
/// strings quoted, arrays and objects with `,` and `:` and no spaces.
pub open spec fn json_text(v: Value) -> Seq<char>
    decreases v, 1int, 0int,
{
    match v {
        Value::Null => seq!['n', 'u', 'l', 'l'],
        Value::Bool(b) => if b {
            seq!['t', 'r', 'u', 'e']
        } else {
            seq!['f', 'a', 'l', 's', 'e']
        },
        Value::Integer(n) => int_text(n),
        Value::Number(t) => t@,
        Value::String(t) => quoted(t@),
        Value::Array(vs) => seq!['['] + items_text(vs@, vs@.len() as int) + seq![']'],
        Value::Object(fs) => seq!['{'] + fields_text(fs@, fs@.len() as int) + seq!['}'],
    }
}

/// The JSON texts of the first `k` elements, separated by `,`.
pub open spec fn items_text(vs: Seq<Value>, k: int) -> Seq<char>
    decreases vs, 0int, k,
{
    if k <= 0 || k > vs.len() {
        Seq::empty()
    } else if k == 1 {
        json_text(vs[0])
    } else {
        items_text(vs, k - 1) + seq![','] + json_text(vs[k - 1])
    }
}

/// The first `k` fields as `"name":value`, separated by `,`.
pub open spec fn fields_text(fs: Seq<(String, Value)>, k: int) -> Seq<char>
    decreases fs, 0int, k,
{
    if k <= 0 || k > fs.len() {
        Seq::empty()
    } else if k == 1 {
        quoted(fs[0].0@) + seq![':'] + json_text(fs[0].1)
    } else {
        fields_text(fs, k - 1) + seq![','] + quoted(fs[k - 1].0@) + seq![':'] + json_text(fs[k - 1].1)
    }
}

/// The label under which a literal is offered: a string as it is, any other
/// value as its JSON text.
pub open spec fn literal_label(v: Value) -> Seq<char> {
    match v {
        Value::String(t) => t@,
        _ => json_text(v),
    }
}

fn push_quoted(out: &mut String, s: &String)
    ensures
        final(out)@ == old(out)@ + quoted(s@),
{
    proof {
        reveal_strlit("\"");
        reveal_strlit("\\");
    }
    out.append("\"");
    let ghost start = out@;
    let text = s.as_str();
    let n = text.unicode_len();
    let mut i: usize = 0;
    proof {
        assert(s@.subrange(0, 0) =~= Seq::<char>::empty());
        assert(out@ =~= start + escaped(s@.subrange(0, 0)));
    }
    while i < n
        invariant
            n == s@.len(),
            text@ == s@,
            i <= n,
            out@ == start + escaped(s@.subrange(0, i as int)),
        decreases n - i,
    {
        let c = text.get_char(i);
        let piece = if c == '"' {
            "\\\""
        } else if c == '\\' {
            "\\\\"
        } else {
            text.substring_char(i, i + 1)
        };
        proof {
            reveal_strlit("\\\"");
            reveal_strlit("\\\\");
            assert(s@.subrange(0, i + 1).drop_last() =~= s@.subrange(0, i as int));
            assert(s@.subrange(0, i + 1).last() == c);
            assert(piece@ =~= escaped_char(c));
        }
        out.append(piece);
        i = i + 1;
        proof {
            assert(out@ =~= start + escaped(s@.subrange(0, i as int)));
        }
    }
    out.append("\"");
    proof {
        assert(s@.subrange(0, n as int) =~= s@);
        assert(final(out)@ =~= old(out)@ + quoted(s@));
    }
}

/// Appends the JSON text of `v` to `out`.
pub fn push_json(out: &mut String, v: &Value)
    ensures
        final(out)@ == old(out)@ + json_text(*v),
    decreases v,
{
    match v {
        Value::Null => {
            proof {
                reveal_strlit("null");
            }
            out.append("null");
            proof {
                assert(final(out)@ =~= old(out)@ + json_text(*v));
            }
        },
        Value::Bool(b) => {
            proof {
                reveal_strlit("true");
                reveal_strlit("false");
            }
            if *b {
                out.append("true");
            } else {
                out.append("false");
            }
            proof {
                assert(final(out)@ =~= old(out)@ + json_text(*v));
            }
        },
        Value::Integer(n) => {
            let n = *n;
            if n < 0 {
                proof {
                    reveal_strlit("-");
                }
                out.append("-");
                let m: u64 = ((-(n + 1)) as u64) + 1;
                push_decimal(out, m);
            } else {
                push_decimal(out, n as u64);
            }
            proof {
                assert(final(out)@ =~= old(out)@ + json_text(*v));
            }
        },
        Value::Number(t) => {
            out.append(t.as_str());
        },
        Value::String(t) => {
            push_quoted(out, t);
        },
        Value::Array(vs) => {
            proof {
                reveal_strlit("[");
                reveal_strlit("]");
                reveal_strlit(",");
            }
            out.append("[");
            let ghost start = out@;
            let mut i: usize = 0;
            while i < vs.len()
                invariant
                    *v is Array,
                    v->Array_0 == *vs,
                    i <= vs@.len(),
                    out@ == start + items_text(vs@, i as int),
                decreases vs.len() - i,
            {
                let ghost before = out@;
                proof {
                    reveal_strlit(",");
                }
                if i > 0 {
                    out.append(",");
                }
                proof {
                    assert(decreases_to!(*v => v->Array_0));
                    assert(decreases_to!(v->Array_0 => v->Array_0@));
                    assert(decreases_to!(v->Array_0@ => vs@[i as int]));
                }
                push_json(out, &vs[i]);
                proof {
                    reveal_strlit(",");
                    if i == 0 {
                        assert(items_text(vs@, 1) == json_text(vs@[0]));
                    } else {
                        assert(items_text(vs@, i + 1) == items_text(vs@, i as int) + seq![','] + json_text(vs@[i as int]));
                    }
                }
                i = i + 1;
                proof {
                    assert(out@ =~= start + items_text(vs@, i as int));
                }
            }
            out.append("]");
            proof {
                assert(final(out)@ =~= old(out)@ + json_text(*v));
            }
        },
        Value::Object(fs) => {
            proof {
                reveal_strlit("{");
                reveal_strlit("}");
                reveal_strlit(",");
                reveal_strlit(":");
            }
            out.append("{");
            let ghost start = out@;
            let mut i: usize = 0;
            while i < fs.len()
                invariant
                    *v is Object,
                    v->Object_0 == *fs,
                    i <= fs@.len(),
                    out@ == start + fields_text(fs@, i as int),
                decreases fs.len() - i,
            {
                proof {
                    reveal_strlit(",");
                    reveal_strlit(":");
                }
                if i > 0 {
                    out.append(",");
                }
                push_quoted(out, &fs[i].0);
                out.append(":");
                proof {
                    assert(decreases_to!(*v => v->Object_0));
                    assert(decreases_to!(v->Object_0 => v->Object_0@));
                    assert(decreases_to!(v->Object_0@ => fs@[i as int]));
                    assert(decreases_to!(fs@[i as int] => fs@[i as int].1));
                }
                push_json(out, &fs[i].1);
                proof {
                    reveal_strlit(",");
                    reveal_strlit(":");
                    if i == 0 {
                        assert(fields_text(fs@, 1) == quoted(fs@[0].0@) + seq![':'] + json_text(fs@[0].1));
                    } else {
                        assert(fields_text(fs@, i + 1) == fields_text(fs@, i as int) + seq![','] + quoted(
                            fs@[i as int].0@,
                        ) + seq![':'] + json_text(fs@[i as int].1));
                    }
                }
                i = i + 1;
                proof {
                    assert(out@ =~= start + fields_text(fs@, i as int));
                }
            }
            out.append("}");
            proof {
                assert(final(out)@ =~= old(out)@ + json_text(*v));
            }
        },
    }
}

/// The label of a literal.
pub fn get_literal_label(v: &Value) -> (r: String)
    ensures
        r@ == literal_label(*v),
{
    match v {
        Value::String(t) => t.clone(),
        _ => {
            let mut out = String::new();
            push_json(&mut out, v);
            proof {
                assert(out@ =~= literal_label(*v));
            }
            out
        },
    }
}

/// A copy of a value.
pub fn copy_value(v: &Value) -> (r: Value)
    ensures
        value_model(r) == value_model(*v),
    decreases v,
{
    match v {
        Value::Null => Value::Null,
        Value::Bool(b) => Value::Bool(*b),
        Value::Integer(n) => Value::Integer(*n),
        Value::Number(t) => Value::Number(t.clone()),
        Value::String(t) => Value::String(t.clone()),
        Value::Array(vs) => {
            let mut out: Vec<Value> = Vec::new();
            let mut i: usize = 0;
            while i < vs.len()
                invariant
                    *v is Array,
                    v->Array_0 == *vs,
                    i <= vs@.len(),
                    models(out@) == models(vs@).subrange(0, i as int),
                decreases vs.len() - i,
            {
                proof {
                    assert(decreases_to!(*v => v->Array_0));
                    assert(decreases_to!(v->Array_0 => v->Array_0@));
                    assert(decreases_to!(v->Array_0@ => vs@[i as int]));
                }
                let e = copy_value(&vs[i]);
                let ghost prev = out@;
                let ghost em = value_model(e);
                out.push(e);
                proof {
                    assert(models(out@) =~= models(prev).push(em));
                    assert(models(vs@).subrange(0, i + 1) =~= models(vs@).subrange(0, i as int).push(em));
                }
                i = i + 1;
                proof {
                    assert(models(out@) =~= models(vs@).subrange(0, i as int));
                }
            }
            proof {
                lemma_array_model(out);
                lemma_array_model(*vs);
                assert(models(vs@).subrange(0, vs@.len() as int) =~= models(vs@));
            }
            Value::Array(out)
        },
        Value::Object(fs) => {
            let mut out: Vec<(String, Value)> = Vec::new();
            let mut i: usize = 0;
            while i < fs.len()
                invariant
                    *v is Object,
                    v->Object_0 == *fs,
                    i <= fs@.len(),
                    field_models(out@) == field_models(fs@).subrange(0, i as int),
                decreases fs.len() - i,
            {
                proof {
                    assert(decreases_to!(*v => v->Object_0));
                    assert(decreases_to!(v->Object_0 => v->Object_0@));
                    assert(decreases_to!(v->Object_0@ => fs@[i as int]));
                    assert(decreases_to!(fs@[i as int] => fs@[i as int].1));
                }
                let e = copy_value(&fs[i].1);
                let k = fs[i].0.clone();
                let ghost prev = out@;
                let ghost fm = (k@, value_model(e));
                out.push((k, e));
                proof {
                    assert(field_models(out@) =~= field_models(prev).push(fm));
                    assert(field_models(fs@).subrange(0, i + 1) =~= field_models(fs@).subrange(0, i as int).push(fm));
                }
                i = i + 1;
                proof {
                    assert(field_models(out@) =~= field_models(fs@).subrange(0, i as int));
                }
            }
            proof {
                lemma_object_model(out);
                lemma_object_model(*fs);
                assert(field_models(fs@).subrange(0, fs@.len() as int) =~= field_models(fs@));
            }
            Value::Object(out)
        },
    }
}

} // verus!
