//! The catalogue of capabilities.
pub use crate::cap_calls::execute;
use crate::capability_list::{CapabilitySpec, Entry, Purity, entries, listing, registry, strs};
use crate::parse::chars_of;
use crate::strings::{cat2, cat3, cat4, join, joined};
use crate::text::same;
use crate::values::texts;
use vstd::prelude::*;
use vstd::string::StringExecFns;

verus! {

/// The first entry with this name.
pub open spec fn entry_named(s: Seq<Entry>, name: Seq<char>) -> Option<Entry>
    decreases s.len(),
{
    if s.len() == 0 {
        None
    } else if s[0].name == name {
        Some(s[0])
    } else {
        entry_named(s.drop_first(), name)
    }
}

/// The description of a capability.
pub fn get(name: &str) -> (r: Option<CapabilitySpec>)
    ensures
        match entry_named(listing(), name@) {
            Some(e) => r is Some && r->Some_0.entry() == e,
            None => r is None,
        },
{
    let mut all = registry();
    let ghost list = listing();
    let mut i: usize = 0;
    assert(list.skip(0) == list);
    while i < all.len()
        invariant
            i <= all.len(),
            list == listing(),
            entries(all@) == list,
            entry_named(list, name@) == entry_named(list.skip(i as int), name@),
        decreases all.len() - i,
    {
        assert(list[i as int] == all@[i as int].entry());
        if same(all[i].name, name) {
            let found = all.swap_remove(i);
            assert(list.skip(i as int)[0] == found.entry());
            return Some(found);
        }
        assert(list.skip(i as int).drop_first() == list.skip(i + 1));
        i = i + 1;
    }
    None
}

/// The names of all capabilities.
pub fn names() -> (r: Vec<&'static str>)
    ensures
        strs(r@) == listing().map_values(|e: Entry| e.name),
{
    let all = registry();
    let mut r: Vec<&'static str> = Vec::new();
    let mut i: usize = 0;
    while i < all.len()
        invariant
            i <= all.len(),
            entries(all@) == listing(),
            r@.len() == i,
            forall|k: int| 0 <= k < i ==> (#[trigger] r@[k])@ == all@[k].name@,
        decreases all.len() - i,
    {
        r.push(all[i].name);
        i = i + 1;
    }
    proof {
        assert(r@.len() == entries(all@).len());
        assert forall|k: int| 0 <= k < r@.len() implies #[trigger] r@[k]@ == listing()[k].name by {
            assert(entries(all@)[k] == all@[k].entry());
        }
        assert(strs(r@) =~= listing().map_values(|e: Entry| e.name));
    }
    r
}

/// `s` with a backslash before each backslash and each quotation mark.
pub open spec fn escaped(s: Seq<char>) -> Seq<char>
    decreases s.len(),
{
    if s.len() == 0 {
        s
    } else if s.last() == '\\' || s.last() == '"' {
        escaped(s.drop_last()).push('\\').push(s.last())
    } else {
        escaped(s.drop_last()).push(s.last())
    }
}

/// The text with a backslash before each backslash and each quotation mark.
pub fn esc(s: &str) -> (r: String)
    ensures
        r@ == escaped(s@),
{
    let v = chars_of(s);
    let mut r = String::new();
    let mut i: usize = 0;
    assert(v@.take(0) == Seq::<char>::empty());
    while i < v.len()
        invariant
            i <= v.len(),
            r@ == escaped(v@.take(i as int)),
        decreases v.len() - i,
    {
        assert(v@.take(i + 1).drop_last() == v@.take(i as int));
        if v[i] == '\\' || v[i] == '"' {
            r.push('\\');
        }
        r.push(v[i]);
        i = i + 1;
    }
    assert(v@.take(i as int) == v@);
    r
}

/// `s` escaped, between quotation marks.
pub open spec fn in_quotes(s: Seq<char>) -> Seq<char> {
    "\""@ + escaped(s) + "\""@
}

fn quoted(items: &Vec<&'static str>) -> (r: Vec<String>)
    ensures
        texts(r@) == strs(items@).map_values(|s: Seq<char>| in_quotes(s)),
{
    let mut r: Vec<String> = Vec::new();
    let mut i: usize = 0;
    while i < items.len()
        invariant
            i <= items.len(),
            r@.len() == i,
            forall|k: int| 0 <= k < i ==> (#[trigger] r@[k])@ == in_quotes(items@[k]@),
        decreases items.len() - i,
    {
        r.push(cat3("\"", esc(items[i]).as_str(), "\""));
        i = i + 1;
    }
    assert(texts(r@) =~= strs(items@).map_values(|s: Seq<char>| in_quotes(s)));
    r
}

/// `n` blanks.
pub open spec fn blanks(n: nat) -> Seq<char> {
    Seq::new(n, |i: int| ' ')
}

fn pad_of(n: usize) -> (r: String)
    ensures
        r@ == blanks(n as nat),
{
    let mut r = String::new();
    let mut i: usize = 0;
    assert(blanks(0) =~= Seq::<char>::empty());
    while i < n
        invariant
            i <= n,
            r@ == blanks(i as nat),
        decreases n - i,
    {
        r.push(' ');
        i = i + 1;
        assert(blanks(i as nat) =~= blanks((i - 1) as nat).push(' '));
    }
    r
}

pub open spec fn purity_word(p: Purity) -> Seq<char> {
    match p {
        Purity::Pure => "pure"@,
        Purity::ReadOnlyEffect => "read_only_effect"@,
        Purity::Effectful => "effectful"@,
    }
}

/// `"key": ` in a line of its own, after the pad.
pub open spec fn key_text(pad: Seq<char>, key: Seq<char>) -> Seq<char> {
    pad + "\""@ + key + "\": "@
}

/// A line that holds a text.
pub open spec fn text_line(pad: Seq<char>, key: Seq<char>, value: Seq<char>) -> Seq<char> {
    key_text(pad, key) + in_quotes(value)
}

/// A line that holds a list of texts.
pub open spec fn list_line(pad: Seq<char>, key: Seq<char>, items: Seq<Seq<char>>) -> Seq<char> {
    key_text(pad, key) + "["@ + joined(
        items.map_values(|s: Seq<char>| in_quotes(s)),
        ", "@,
    ) + "]"@
}

/// The lines of an entry as a JSON object.
pub open spec fn entry_lines(e: Entry, pad: Seq<char>) -> Seq<Seq<char>> {
    seq![
        text_line(pad, "name"@, e.name),
        text_line(pad, "version"@, e.version),
        text_line(pad, "package"@, e.package),
        text_line(pad, "summary"@, e.summary),
        list_line(pad, "inputs"@, e.inputs),
        text_line(pad, "output"@, e.output),
        text_line(pad, "purity"@, purity_word(e.purity)),
        key_text(pad, "deterministic"@) + (if e.deterministic {
            "true"@
        } else {
            "false"@
        }),
        list_line(pad, "effects"@, e.effects),
        text_line(pad, "cost"@, e.cost),
        text_line(pad, "failure"@, e.failure),
        text_line(pad, "safety"@, e.safety),
    ]
}

/// An entry as JSON text, indented.
pub open spec fn entry_json(e: Entry, indent: nat) -> Seq<char> {
    blanks(indent) + "{\n"@ + joined(entry_lines(e, blanks(indent + 2)), ",\n"@) + "\n"@ + blanks(
        indent,
    ) + "}"@
}

fn key_of(pad: &str, key: &str) -> (r: String)
    ensures
        r@ == key_text(pad@, key@),
{
    cat4(pad, "\"", key, "\": ")
}

fn text_line_of(pad: &str, key: &str, value: &str) -> (r: String)
    ensures
        r@ == text_line(pad@, key@, value@),
{
    let mut r = key_of(pad, key);
    r.append(cat3("\"", esc(value).as_str(), "\"").as_str());
    r
}

fn list_line_of(pad: &str, key: &str, items: &Vec<&'static str>) -> (r: String)
    ensures
        r@ == list_line(pad@, key@, strs(items@)),
{
    let q = quoted(items);
    cat4(key_of(pad, key).as_str(), "[", join(&q, ", ").as_str(), "]")
}

/// The words of the purities need no escaping.
proof fn plain_words(p: Purity)
    ensures
        escaped(purity_word(p)) == purity_word(p),
{
    reveal_strlit("pure");
    reveal_strlit("read_only_effect");
    reveal_strlit("effectful");
    plain_text(purity_word(p));
}

proof fn plain_text(s: Seq<char>)
    requires
        forall|i: int| 0 <= i < s.len() ==> s[i] != '\\' && s[i] != '"',
    ensures
        escaped(s) == s,
    decreases s.len(),
{
    if s.len() > 0 {
        plain_text(s.drop_last());
        assert(s.drop_last().push(s.last()) == s);
    }
}

/// A description as JSON text, indented.
pub fn spec_json(spec: &CapabilitySpec, indent: usize) -> (r: String)
    requires
        indent <= usize::MAX - 2,
    ensures
        r@ == entry_json(spec.entry(), indent as nat),
{
    let pad = pad_of(indent);
    let pad2 = pad_of(indent + 2);
    let p = pad2.as_str();
    let word = match spec.purity {
        Purity::Pure => "pure",
        Purity::ReadOnlyEffect => "read_only_effect",
        Purity::Effectful => "effectful",
    };
    let yes = if spec.deterministic {
        "true"
    } else {
        "false"
    };
    let mut ls: Vec<String> = Vec::new();
    ls.push(text_line_of(p, "name", spec.name));
    ls.push(text_line_of(p, "version", spec.version));
    ls.push(text_line_of(p, "package", spec.package));
    ls.push(text_line_of(p, "summary", spec.summary));
    ls.push(list_line_of(p, "inputs", &spec.inputs));
    ls.push(text_line_of(p, "output", spec.output));
    ls.push(text_line_of(p, "purity", word));
    ls.push(cat2(key_of(p, "deterministic").as_str(), yes));
    ls.push(list_line_of(p, "effects", &spec.effects));
    ls.push(text_line_of(p, "cost", spec.cost));
    ls.push(text_line_of(p, "failure", spec.failure));
    ls.push(text_line_of(p, "safety", spec.safety));
    proof {
        plain_words(spec.purity);
        assert(texts(ls@) =~= entry_lines(spec.entry(), pad2@));
    }
    let body = join(&ls, ",\n");
    let mut r = cat4(pad.as_str(), "{\n", body.as_str(), "\n");
    r.append(pad.as_str());
    r.append("}");
    r
}

/// The catalogue's entries, one after another, with commas between them.
pub open spec fn catalogue_lines(s: Seq<Entry>, last: int) -> Seq<char>
    decreases s.len(),
{
    if s.len() == 0 {
        Seq::empty()
    } else {
        let front = catalogue_lines(s.drop_last(), last) + entry_json(s.last(), 2);
        let parted = if s.len() - 1 < last {
            front.push(',')
        } else {
            front
        };
        parted.push('\n')
    }
}

/// The catalogue as JSON text.
pub open spec fn catalogue() -> Seq<char> {
    ("[\n"@ + catalogue_lines(listing(), listing().len() - 1)).push(']')
}

/// The catalogue as JSON text.
pub fn json_catalog() -> (r: String)
    ensures
        r@ == catalogue(),
{
    let all = registry();
    let ghost list = listing();
    let mut out = String::from_str("[\n");
    let ghost head = out@;
    let mut i: usize = 0;
    assert(list.take(0) == Seq::<Entry>::empty());
    assert(head + Seq::<char>::empty() == head);
    assert(entries(all@).len() == all@.len());
    while i < all.len()
        invariant
            i <= all.len(),
            entries(all@) == list,
            list.len() == all@.len(),
            head == "[\n"@,
            out@ == head + catalogue_lines(list.take(i as int), list.len() - 1),
        decreases all.len() - i,
    {
        let ghost before = catalogue_lines(list.take(i as int), list.len() - 1);
        let one = spec_json(&all[i], 2);
        proof {
            assert(list[i as int] == all@[i as int].entry());
            assert(list.take(i + 1).drop_last() == list.take(i as int));
        }
        out.append(one.as_str());
        if i < all.len() - 1 {
            out.push(',');
        }
        out.push('\n');
        i = i + 1;
        assert(out@ =~= head + catalogue_lines(list.take(i as int), list.len() - 1));
    }
    assert(list.take(i as int) == list);
    out.push(']');
    out
}

} // verus!
