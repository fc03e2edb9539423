//! The payload model: JSON-representable values, an insertion-ordered field
//! map with unique keys, and a verified serializer to compact JSON text.
//!
//! Every value has a mathematical mirror (`JVal`), and the JSON text of a
//! value is specified by `jtext`; the executable serializer is proved to
//! produce exactly that text.

use vstd::prelude::*;
use crate::text::{dec_nat, digit_char, u64_to_decimal, digit_str, hex_char, hex_str};

verus! {

/// The mathematical mirror of a payload value.
pub ghost enum JVal {
    Bool(bool),
    Int(int),
    Str(Seq<char>),
    Arr(Seq<JVal>),
    Obj(Seq<(Seq<char>, JVal)>),
}

/// A JSON-representable payload value: string, integer, boolean, array or
/// nested object (an ordered list of key/value pairs).
pub enum JsonValue {
    Bool(bool),
    Int(i64),
    Str(String),
    Arr(Vec<JsonValue>),
    Obj(Vec<(String, JsonValue)>),
}

/// An insertion-ordered mapping from field names to payload values.
pub struct JsonMap {
    pub entries: Vec<(String, JsonValue)>,
}

pub open spec fn jv_view(v: JsonValue) -> JVal
    decreases v,
{
    match v {
        JsonValue::Bool(b) => JVal::Bool(b),
        JsonValue::Int(n) => JVal::Int(n as int),
        JsonValue::Str(s) => JVal::Str(s@),
        JsonValue::Arr(a) => JVal::Arr(jv_view_list(a@)),
        JsonValue::Obj(entries) => JVal::Obj(jv_view_entries(entries@)),
    }
}

pub open spec fn jv_view_list(elems: Seq<JsonValue>) -> Seq<JVal>
    decreases elems,
{
    if elems.len() == 0 {
        Seq::empty()
    } else {
        jv_view_list(elems.drop_last()).push(jv_view(elems.last()))
    }
}

pub open spec fn jv_view_entries(entries: Seq<(String, JsonValue)>) -> Seq<(Seq<char>, JVal)>
    decreases entries,
{
    if entries.len() == 0 {
        Seq::empty()
    } else {
        jv_view_entries(entries.drop_last()).push(
            (entries.last().0@, jv_view(entries.last().1)),
        )
    }
}

impl View for JsonValue {
    type V = JVal;

    open spec fn view(&self) -> JVal {
        jv_view(*self)
    }
}

impl View for JsonMap {
    type V = Seq<(Seq<char>, JVal)>;

    open spec fn view(&self) -> Seq<(Seq<char>, JVal)> {
        jv_view_entries(self.entries@)
    }
}

pub proof fn lemma_view_list_index(elems: Seq<JsonValue>)
    ensures
        jv_view_list(elems).len() == elems.len(),
        forall|i: int| 0 <= i < elems.len() ==> jv_view_list(elems)[i] == jv_view(elems[i]),
    decreases elems,
{
    if elems.len() > 0 {
        lemma_view_list_index(elems.drop_last());
    }
}

pub proof fn lemma_view_entries_index(entries: Seq<(String, JsonValue)>)
    ensures
        jv_view_entries(entries).len() == entries.len(),
        forall|i: int|
            0 <= i < entries.len() ==> jv_view_entries(entries)[i] == (
                entries[i].0@,
                jv_view(entries[i].1),
            ),
    decreases entries,
{
    if entries.len() > 0 {
        lemma_view_entries_index(entries.drop_last());
    }
}

// ---------------------------------------------------------------------------
// The field map
// ---------------------------------------------------------------------------

/// All field names are distinct.
pub open spec fn wf_entries(entries: Seq<(Seq<char>, JVal)>) -> bool {
    forall|i: int, j: int| 0 <= i < j < entries.len() ==> entries[i].0 != entries[j].0
}

pub open spec fn has_key(entries: Seq<(Seq<char>, JVal)>, k: Seq<char>) -> bool {
    exists|i: int| 0 <= i < entries.len() && entries[i].0 == k
}

pub open spec fn key_index(entries: Seq<(Seq<char>, JVal)>, k: Seq<char>) -> int {
    choose|i: int| 0 <= i < entries.len() && entries[i].0 == k
}

/// Inserting a field replaces the value in place when the name is already
/// present, and appends the pair at the end otherwise.
pub open spec fn spec_insert(
    entries: Seq<(Seq<char>, JVal)>,
    k: Seq<char>,
    v: JVal,
) -> Seq<(Seq<char>, JVal)> {
    if has_key(entries, k) {
        entries.update(key_index(entries, k), (k, v))
    } else {
        entries.push((k, v))
    }
}

/// Extending inserts the added fields one by one, first to last.
pub open spec fn spec_extend(
    base: Seq<(Seq<char>, JVal)>,
    addl: Seq<(Seq<char>, JVal)>,
) -> Seq<(Seq<char>, JVal)>
    decreases addl.len(),
{
    if addl.len() == 0 {
        base
    } else {
        spec_extend(spec_insert(base, addl[0].0, addl[0].1), addl.drop_first())
    }
}

impl JsonMap {
    /// The empty payload.
    pub fn new() -> (m: JsonMap)
        ensures
            m@ == Seq::<(Seq<char>, JVal)>::empty(),
            wf_entries(m@),
    {
        let m = JsonMap { entries: Vec::new() };
        proof {
            assert(m@ =~= Seq::<(Seq<char>, JVal)>::empty());
        }
        m
    }

    /// Sets the field `key` to `value`.
    #[verifier::loop_isolation(false)]
    pub fn insert(&mut self, key: String, value: JsonValue)
        requires
            wf_entries(old(self)@),
        ensures
            final(self)@ == spec_insert(old(self)@, key@, value@),
            wf_entries(final(self)@),
    {
        proof {
            lemma_view_entries_index(self.entries@);
        }
        let ghost model = self@;
        let n = self.entries.len();
        let mut i: usize = 0;
        while i < n
            invariant
                i <= n,
                *self == *old(self),
                n == self.entries@.len(),
                model == self@,
                model.len() == n,
                forall|k: int|
                    0 <= k < n ==> model[k] == (self.entries@[k].0@, jv_view(self.entries@[k].1)),
                forall|k: int| 0 <= k < i ==> model[k].0 != key@,
            decreases n - i,
        {
            if self.entries[i].0 == key {
                proof {
                    assert(model[i as int].0 == key@);
                    assert(has_key(model, key@));
                    let j = key_index(model, key@);
                    assert(0 <= j < model.len() && model[j].0 == key@);
                    if j != i as int {
                        if j < i as int {
                            assert(model[j].0 != key@);
                        } else {
                            assert(model[i as int].0 != model[j].0);
                        }
                        assert(false);
                    }
                }
                let _ = self.entries.remove(i);
                self.entries.insert(i, (key, value));
                proof {
                    lemma_view_entries_index(self.entries@);
                    assert(self.entries@ =~= old(self).entries@.update(
                        i as int,
                        self.entries@[i as int],
                    ));
                    assert(self@ =~= model.update(i as int, (key@, value@)));
                    assert(wf_entries(self@));
                }
                return ;
            }
            i = i + 1;
        }
        self.entries.push((key, value));
        proof {
            lemma_view_entries_index(self.entries@);
            assert(self@ =~= model.push((key@, value@)));
            assert(!has_key(model, key@));
            assert(wf_entries(self@));
        }
    }

    /// Inserts every field of `other`, first to last.
    pub fn extend(&mut self, other: JsonMap)
        requires
            wf_entries(old(self)@),
        ensures
            final(self)@ == spec_extend(old(self)@, other@),
            wf_entries(final(self)@),
    {
        let ghost base = self@;
        let ghost addl = other@;
        let mut rest = other.entries;
        proof {
            assert(jv_view_entries(rest@) == addl);
        }
        while rest.len() > 0
            invariant
                wf_entries(self@),
                spec_extend(self@, jv_view_entries(rest@)) == spec_extend(base, addl),
            decreases rest.len(),
        {
            let ghost rest_model = jv_view_entries(rest@);
            proof {
                lemma_view_entries_index(rest@);
            }
            let (k, v) = rest.remove(0);
            proof {
                lemma_view_entries_index(rest@);
                assert(jv_view_entries(rest@) =~= rest_model.drop_first());
                assert(rest_model[0] == (k@, jv_view(v)));
            }
            self.insert(k, v);
        }
        proof {
            assert(jv_view_entries(rest@) =~= Seq::<(Seq<char>, JVal)>::empty());
        }
    }
}

// ---------------------------------------------------------------------------
// The JSON text of a value
// ---------------------------------------------------------------------------

/// How one character of a string is written inside a JSON string literal:
/// quote and backslash are escaped, control characters get their short
/// escapes or a `\u00XX` escape with lowercase hex digits, and every other
/// character stands for itself.
pub open spec fn escape_char(c: char) -> Seq<char> {
    if c == '"' {
        seq!['\\', '"']
    } else if c == '\\' {
        seq!['\\', '\\']
    } else if c == '\u{8}' {
        seq!['\\', 'b']
    } else if c == '\t' {
        seq!['\\', 't']
    } else if c == '\n' {
        seq!['\\', 'n']
    } else if c == '\u{c}' {
        seq!['\\', 'f']
    } else if c == '\r' {
        seq!['\\', 'r']
    } else if (c as u32) < 0x20 {
        seq!['\\', 'u', '0', '0', hex_char(((c as u32) / 16) as nat), hex_char(((c as u32) % 16) as nat)]
    } else {
        seq![c]
    }
}

pub open spec fn escaped(s: Seq<char>) -> Seq<char>
    decreases s.len(),
{
    if s.len() == 0 {
        Seq::empty()
    } else {
        escaped(s.drop_last()) + escape_char(s.last())
    }
}

/// A JSON string literal: the escaped characters between double quotes.
pub open spec fn quoted(s: Seq<char>) -> Seq<char> {
    seq!['"'] + escaped(s) + seq!['"']
}

/// The decimal rendering of an integer, with a leading minus sign when
/// negative.
pub open spec fn dec_int(n: int) -> Seq<char> {
    if n < 0 {
        seq!['-'] + dec_nat((-n) as nat)
    } else {
        dec_nat(n as nat)
    }
}

/// The compact JSON text of a value.
pub open spec fn jtext(v: JVal) -> Seq<char>
    decreases v,
{
    match v {
        JVal::Bool(b) => if b {
            seq!['t', 'r', 'u', 'e']
        } else {
            seq!['f', 'a', 'l', 's', 'e']
        },
        JVal::Int(n) => dec_int(n),
        JVal::Str(s) => quoted(s),
        JVal::Arr(elems) => seq!['['] + jtext_items(elems) + seq![']'],
        JVal::Obj(entries) => seq!['{'] + jtext_members(entries) + seq!['}'],
    }
}

/// The comma-separated elements of a JSON array.
pub open spec fn jtext_items(elems: Seq<JVal>) -> Seq<char>
    decreases elems,
{
    if elems.len() == 0 {
        Seq::empty()
    } else {
        jtext_items(elems.drop_last()) + (if elems.len() == 1 {
            Seq::<char>::empty()
        } else {
            seq![',']
        }) + jtext(elems.last())
    }
}

/// One `"key":value` member of a JSON object.
pub open spec fn jtext_member(e: (Seq<char>, JVal)) -> Seq<char>
    decreases e,
{
    quoted(e.0) + seq![':'] + jtext(e.1)
}

/// The comma-separated members of a JSON object.
pub open spec fn jtext_members(entries: Seq<(Seq<char>, JVal)>) -> Seq<char>
    decreases entries,
{
    if entries.len() == 0 {
        Seq::empty()
    } else {
        jtext_members(entries.drop_last()) + (if entries.len() == 1 {
            Seq::<char>::empty()
        } else {
            seq![',']
        }) + jtext_member(entries.last())
    }
}

// ---------------------------------------------------------------------------
// The executable serializer
// ---------------------------------------------------------------------------

/// Appends the escaped form of `s` to `out`.
pub fn write_escaped(out: &mut String, s: &str)
    ensures
        final(out)@ == old(out)@ + escaped(s@),
{
    let n = s.unicode_len();
    let mut i: usize = 0;
    while i < n
        invariant
            n == s@.len(),
            i <= n,
            out@ == old(out)@ + escaped(s@.take(i as int)),
        decreases n - i,
    {
        let c = s.get_char(i);
        proof {
            let t = s@.take(i + 1 as int);
            assert(t.drop_last() =~= s@.take(i as int));
            assert(t.last() == s@[i as int]);
        }
        if c == '"' {
            out.append("\\\"");
            proof {
                reveal_strlit("\\\"");
                assert("\\\""@ =~= escape_char('"'));
            }
        } else if c == '\\' {
            out.append("\\\\");
            proof {
                reveal_strlit("\\\\");
                assert("\\\\"@ =~= escape_char('\\'));
            }
        } else if c == '\u{8}' {
            out.append("\\b");
            proof {
                reveal_strlit("\\b");
                assert("\\b"@ =~= escape_char('\u{8}'));
            }
        } else if c == '\t' {
            out.append("\\t");
            proof {
                reveal_strlit("\\t");
                assert("\\t"@ =~= escape_char('\t'));
            }
        } else if c == '\n' {
            out.append("\\n");
            proof {
                reveal_strlit("\\n");
                assert("\\n"@ =~= escape_char('\n'));
            }
        } else if c == '\u{c}' {
            out.append("\\f");
            proof {
                reveal_strlit("\\f");
                assert("\\f"@ =~= escape_char('\u{c}'));
            }
        } else if c == '\r' {
            out.append("\\r");
            proof {
                reveal_strlit("\\r");
                assert("\\r"@ =~= escape_char('\r'));
            }
        } else if (c as u32) < 0x20 {
            out.append("\\u00");
            let code: u32 = c as u32;
            out.append(hex_str(code / 16));
            out.append(hex_str(code % 16));
            proof {
                reveal_strlit("\\u00");
                assert(out@ =~= old(out)@ + escaped(s@.take(i as int)) + escape_char(c));
            }
        } else {
            let piece = s.substring_char(i, i + 1);
            out.append(piece);
            proof {
                assert(piece@ =~= seq![s@[i as int]]);
                assert(escape_char(c) =~= seq![c]);
            }
        }
        i = i + 1;
    }
    proof {
        assert(s@.take(n as int) =~= s@);
    }
}

/// Appends `s` to `out` as a JSON string literal.
pub fn write_quoted(out: &mut String, s: &str)
    ensures
        final(out)@ == old(out)@ + quoted(s@),
{
    out.append("\"");
    write_escaped(out, s);
    out.append("\"");
    proof {
        reveal_strlit("\"");
        assert(out@ =~= old(out)@ + quoted(s@));
    }
}

/// Appends the decimal rendering of `n` to `out`.
pub fn write_int(out: &mut String, n: i64)
    ensures
        final(out)@ == old(out)@ + dec_int(n as int),
{
    if n < 0 {
        out.append("-");
        let m: u64 = (-(n as i128)) as u64;
        let digits = u64_to_decimal(m);
        out.append(digits.as_str());
        proof {
            reveal_strlit("-");
            assert("-"@ =~= seq!['-']);
            assert(m as nat == (-(n as int)) as nat);
            assert(out@ =~= old(out)@ + dec_int(n as int));
        }
    } else {
        let digits = u64_to_decimal(n as u64);
        out.append(digits.as_str());
    }
}

/// Appends the compact JSON text of `v` to `out`.
#[verifier::loop_isolation(false)]
pub fn write_json(out: &mut String, v: &JsonValue)
    ensures
        final(out)@ == old(out)@ + jtext(v@),
    decreases *v,
{
    match v {
        JsonValue::Bool(b) => {
            if *b {
                out.append("true");
                proof {
                    reveal_strlit("true");
                    assert("true"@ =~= seq!['t', 'r', 'u', 'e']);
                }
            } else {
                out.append("false");
                proof {
                    reveal_strlit("false");
                    assert("false"@ =~= seq!['f', 'a', 'l', 's', 'e']);
                }
            }
        },
        JsonValue::Int(n) => {
            write_int(out, *n);
        },
        JsonValue::Str(s) => {
            write_quoted(out, s.as_str());
        },
        JsonValue::Arr(elems) => {
            out.append("[");
            proof {
                reveal_strlit("[");
                reveal_strlit("]");
                reveal_strlit(",");
                lemma_view_list_index(elems@);
            }
            let ghost model = jv_view_list(elems@);
            let n = elems.len();
            let mut i: usize = 0;
            while i < n
                invariant
                    n == elems@.len(),
                    i <= n,
                    model == jv_view_list(elems@),
                    model.len() == n,
                    forall|k: int| 0 <= k < n ==> model[k] == jv_view(elems@[k]),
                    out@ == old(out)@ + seq!['['] + jtext_items(model.take(i as int)),
                    "["@ =~= seq!['['],
                    "]"@ =~= seq![']'],
                    ","@ =~= seq![','],
                decreases n - i,
            {
                if i > 0 {
                    out.append(",");
                }
                proof {
                    assert(decreases_to!(*v => v->Arr_0));
                    assert(v->Arr_0 == *elems);
                    assert(decreases_to!(*elems => elems@));
                    assert(decreases_to!(elems@ => elems@[i as int]));
                }
                write_json(out, &elems[i]);
                proof {
                    let t = model.take(i + 1 as int);
                    assert(t.drop_last() =~= model.take(i as int));
                    assert(t.last() == model[i as int]);
                    assert(out@ =~= old(out)@ + seq!['['] + jtext_items(model.take(i + 1 as int)));
                }
                i = i + 1;
            }
            out.append("]");
            proof {
                assert(model.take(n as int) =~= model);
                assert(out@ =~= old(out)@ + jtext(v@));
            }
        },
        JsonValue::Obj(entries) => {
            out.append("{");
            proof {
                reveal_strlit("{");
                reveal_strlit("}");
                reveal_strlit(",");
                reveal_strlit(":");
                lemma_view_entries_index(entries@);
            }
            let ghost model = jv_view_entries(entries@);
            let n = entries.len();
            let mut i: usize = 0;
            while i < n
                invariant
                    n == entries@.len(),
                    i <= n,
                    model == jv_view_entries(entries@),
                    model.len() == n,
                    forall|k: int|
                        0 <= k < n ==> model[k] == (entries@[k].0@, jv_view(entries@[k].1)),
                    out@ == old(out)@ + seq!['{'] + jtext_members(model.take(i as int)),
                    "{"@ =~= seq!['{'],
                    "}"@ =~= seq!['}'],
                    ","@ =~= seq![','],
                    ":"@ =~= seq![':'],
                decreases n - i,
            {
                if i > 0 {
                    out.append(",");
                }
                write_quoted(out, entries[i].0.as_str());
                out.append(":");
                proof {
                    assert(decreases_to!(*v => v->Obj_0));
                    assert(v->Obj_0 == *entries);
                    assert(decreases_to!(*entries => entries@));
                    assert(decreases_to!(entries@ => entries@[i as int]));
                    assert(decreases_to!(entries@[i as int] => entries@[i as int].1));
                }
                write_json(out, &entries[i].1);
                proof {
                    let t = model.take(i + 1 as int);
                    assert(t.drop_last() =~= model.take(i as int));
                    assert(t.last() == model[i as int]);
                    assert(jtext_member(t.last()) =~= quoted(model[i as int].0) + seq![':'] + jtext(
                        model[i as int].1,
                    ));
                    assert(out@ =~= old(out)@ + seq!['{'] + jtext_members(model.take(i + 1 as int)));
                }
                i = i + 1;
            }
            out.append("}");
            proof {
                assert(model.take(n as int) =~= model);
                assert(out@ =~= old(out)@ + jtext(v@));
            }
        },
    }
}

/// The compact JSON text of a payload map, as an object.
pub fn to_json_string(m: &JsonMap) -> (r: String)
    ensures
        r@ == jtext(JVal::Obj(m@)),
{
    let mut out = String::new();
    write_object(&mut out, &m.entries);
    out
}

/// Appends the compact JSON text of an object with the given members.
pub fn write_object(out: &mut String, entries: &Vec<(String, JsonValue)>)
    ensures
        final(out)@ == old(out)@ + jtext(JVal::Obj(jv_view_entries(entries@))),
{
    out.append("{");
    proof {
        reveal_strlit("{");
        reveal_strlit("}");
        reveal_strlit(",");
        lemma_view_entries_index(entries@);
    }
    let ghost model = jv_view_entries(entries@);
    let n = entries.len();
    let mut i: usize = 0;
    while i < n
        invariant
            n == entries@.len(),
            i <= n,
            model == jv_view_entries(entries@),
            model.len() == n,
            forall|k: int| 0 <= k < n ==> model[k] == (entries@[k].0@, jv_view(entries@[k].1)),
            out@ == old(out)@ + seq!['{'] + jtext_members(model.take(i as int)),
            "{"@ =~= seq!['{'],
            "}"@ =~= seq!['}'],
            ","@ =~= seq![','],
        decreases n - i,
    {
        if i > 0 {
            out.append(",");
        }
        write_quoted(out, entries[i].0.as_str());
        out.append(":");
        proof {
            reveal_strlit(":");
            assert(":"@ =~= seq![':']);
        }
        write_json(out, &entries[i].1);
        proof {
            let t = model.take(i + 1 as int);
            assert(t.drop_last() =~= model.take(i as int));
            assert(t.last() == model[i as int]);
            assert(jtext_member(t.last()) =~= quoted(model[i as int].0) + seq![':'] + jtext(
                model[i as int].1,
            ));
            assert(out@ =~= old(out)@ + seq!['{'] + jtext_members(model.take(i + 1 as int)));
        }
        i = i + 1;
    }
    out.append("}");
    proof {
        assert(model.take(n as int) =~= model);
        assert(out@ =~= old(out)@ + jtext(JVal::Obj(model)));
    }
}

} // verus!
