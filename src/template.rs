use vstd::prelude::*;

use crate::args::opt_string_view;
use crate::context::{facts_view, RunCommandOpts, StdinSource, TaskContextInner};
use crate::modules::{ModuleError, OptsView, StdinView};
use crate::yaml::{Yaml, YamlValue};

verus! {

/// A hexadecimal digit, lower case.
pub open spec fn hex_digit(d: int) -> char {
    "0123456789abcdef"@[d]
}

/// A code point as eight hexadecimal digits.
pub open spec fn hex8(n: u32) -> Seq<char> {
    let n = n as int;
    seq![
        hex_digit(n / 268435456 % 16),
        hex_digit(n / 16777216 % 16),
        hex_digit(n / 1048576 % 16),
        hex_digit(n / 65536 % 16),
        hex_digit(n / 4096 % 16),
        hex_digit(n / 256 % 16),
        hex_digit(n / 16 % 16),
        hex_digit(n % 16),
    ]
}

/// One character inside a double-quoted YAML scalar: quotes and backslashes
/// are escaped, printable ASCII stays, anything else becomes `\U` and eight
/// hexadecimal digits.
pub open spec fn quoted_char(c: char) -> Seq<char> {
    if c == '"' {
        seq!['\\', '"']
    } else if c == '\\' {
        seq!['\\', '\\']
    } else if ' ' <= c && c <= '~' {
        seq![c]
    } else {
        seq!['\\', 'U'] + hex8(c as u32)
    }
}

pub open spec fn quoted_body(s: Seq<char>) -> Seq<char>
    decreases s.len(),
{
    if s.len() == 0 {
        Seq::empty()
    } else {
        quoted_body(s.drop_last()) + quoted_char(s.last())
    }
}

/// `s` as a double-quoted YAML scalar.
pub open spec fn quoted(s: Seq<char>) -> Seq<char> {
    seq!['"'] + quoted_body(s) + seq!['"']
}

/// The parts separated by `", "`.
pub open spec fn join(parts: Seq<Seq<char>>) -> Seq<char>
    decreases parts.len(),
{
    if parts.len() == 0 {
        Seq::empty()
    } else if parts.len() == 1 {
        parts[0]
    } else {
        join(parts.drop_last()) + ", "@ + parts.last()
    }
}

/// A character that may appear in a number's text: digits, signs, the
/// decimal point, exponents, and the letters of `.inf` and `.nan`.
pub open spec fn number_char(c: char) -> bool {
    ('0' <= c && c <= '9') || c == '+' || c == '-' || c == '.' || c == 'e' || c == 'E' || c == 'i'
        || c == 'n' || c == 'f' || c == 'a' || c == 'I' || c == 'N' || c == 'F' || c == 'A'
}

/// Text that can stand unquoted as a number: only number characters, so it
/// cannot change the structure of the surrounding document.
pub open spec fn number_like(n: Seq<char>) -> bool {
    n.len() > 0 && forall|i: int| 0 <= i < n.len() ==> number_char(#[trigger] n[i])
}

fn is_number_like(n: &str) -> (r: bool)
    ensures
        r == number_like(n@),
{
    let len = n.unicode_len();
    if len == 0 {
        return false;
    }
    let mut i: usize = 0;
    while i < len
        invariant
            len == n@.len(),
            i <= len,
            forall|j: int| 0 <= j < i ==> number_char(#[trigger] n@[j]),
        decreases len - i,
    {
        let c = n.get_char(i);
        let ok = ('0' <= c && c <= '9') || c == '+' || c == '-' || c == '.' || c == 'e' || c == 'E'
            || c == 'i' || c == 'n' || c == 'f' || c == 'a' || c == 'I' || c == 'N' || c == 'F'
            || c == 'A';
        if !ok {
            return false;
        }
        i = i + 1;
    }
    true
}

/// A node in YAML flow style; a number whose text is not number-like is
/// quoted.
pub open spec fn flow_text(v: YamlValue) -> Seq<char>
    decreases v,
{
    match v {
        YamlValue::Null => "null"@,
        YamlValue::Bool(b) => if b {
            "true"@
        } else {
            "false"@
        },
        YamlValue::Number(n) => if number_like(n) {
            n
        } else {
            quoted(n)
        },
        YamlValue::Str(s) => quoted(s),
        YamlValue::Sequence(items) => "["@ + join(item_texts(items)) + "]"@,
        YamlValue::Mapping(entries) => "{"@ + join(entry_texts(entries)) + "}"@,
    }
}

/// Each item in flow style.
pub open spec fn item_texts(items: Seq<YamlValue>) -> Seq<Seq<char>>
    decreases items,
{
    Seq::new(
        items.len(),
        |i: int|
            if 0 <= i < items.len() {
                flow_text(items[i])
            } else {
                Seq::empty()
            },
    )
}

/// Each entry in flow style, as `key: value`.
pub open spec fn entry_texts(entries: Seq<(YamlValue, YamlValue)>) -> Seq<Seq<char>>
    decreases entries,
{
    Seq::new(
        entries.len(),
        |i: int|
            if 0 <= i < entries.len() {
                flow_text(entries[i].0) + ": "@ + flow_text(entries[i].1)
            } else {
                Seq::empty()
            },
    )
}

/// The facts as one YAML flow mapping: the variables a template sees.
pub open spec fn context_text(facts: Seq<(Seq<char>, YamlValue)>) -> Seq<char> {
    "{"@ + join(fact_texts(facts)) + "}"@
}

/// Each fact as `"name": value`.
pub open spec fn fact_texts(facts: Seq<(Seq<char>, YamlValue)>) -> Seq<Seq<char>> {
    Seq::new(
        facts.len(),
        |i: int|
            if 0 <= i < facts.len() {
                quoted(facts[i].0) + ": "@ + flow_text(facts[i].1)
            } else {
                Seq::empty()
            },
    )
}

/// What rendering template `source`, named `name`, gives with the variables
/// of the YAML document `context`; `None` when either is rejected.
pub uninterp spec fn rendered_of(name: Seq<char>, source: Seq<char>, context: Seq<char>) -> Option<
    Seq<char>,
>;

/// Relies on minijinja's `Environment::render_named_str`, with the strict
/// undefined behaviour: the rendered text depends on the name, the source and
/// the variables alone; an error gives `None`. The variables are read from
/// `context` with `serde_yaml::from_str`, which only turns the text into the
/// value the renderer takes.
#[verifier::external_body]
fn render_template(name: &str, source: &str, context: &str) -> (r: Option<String>)
    ensures
        opt_string_view(r) == rendered_of(name@, source@, context@),
{
    let variables: serde_yaml::Value = serde_yaml::from_str(context).ok()?;
    let mut environment = minijinja::Environment::new();
    environment.set_undefined_behavior(minijinja::UndefinedBehavior::Strict);
    let variables = minijinja::Value::from_serialize(&variables);
    environment.render_named_str(name, source, variables).ok()
}

fn push_hex(out: &mut String, d: u32)
    requires
        d < 16,
    ensures
        final(out)@ == old(out)@ + seq![hex_digit(d as int)],
{
    let digits = "0123456789abcdef";
    proof {
        reveal_strlit("0123456789abcdef");
    }
    let one = digits.substring_char(d as usize, d as usize + 1);
    assert(one@ =~= seq![hex_digit(d as int)]);
    out.append(one);
}

fn push_hex8(out: &mut String, n: u32)
    ensures
        final(out)@ == old(out)@ + hex8(n),
{
    let ghost start = out@;
    push_hex(out, n / 268435456 % 16);
    push_hex(out, n / 16777216 % 16);
    push_hex(out, n / 1048576 % 16);
    push_hex(out, n / 65536 % 16);
    push_hex(out, n / 4096 % 16);
    push_hex(out, n / 256 % 16);
    push_hex(out, n / 16 % 16);
    push_hex(out, n % 16);
    assert(out@ =~= start + hex8(n));
}

fn push_quoted(out: &mut String, s: &str)
    ensures
        final(out)@ == old(out)@ + quoted(s@),
{
    let ghost start = out@;
    out.append("\"");
    proof {
        reveal_strlit("\"");
    }
    let n = s.unicode_len();
    let mut i: usize = 0;
    while i < n
        invariant
            n == s@.len(),
            i <= n,
            out@ == start + seq!['"'] + quoted_body(s@.take(i as int)),
        decreases n - i,
    {
        let c = s.get_char(i);
        assert(s@.take(i + 1).drop_last() =~= s@.take(i as int));
        assert(s@.take(i + 1).last() == c);
        if c == '"' {
            out.append("\\\"");
            proof {
                reveal_strlit("\\\"");
            }
        } else if c == '\\' {
            out.append("\\\\");
            proof {
                reveal_strlit("\\\\");
            }
        } else if ' ' <= c && c <= '~' {
            out.append(s.substring_char(i, i + 1));
            assert(s@.subrange(i as int, i + 1) =~= seq![c]);
        } else {
            out.append("\\U");
            proof {
                reveal_strlit("\\U");
            }
            push_hex8(out, c as u32);
        }
        assert(out@ =~= start + seq!['"'] + quoted_body(s@.take(i + 1)));
        i = i + 1;
    }
    assert(s@.take(n as int) =~= s@);
    out.append("\"");
    assert(out@ =~= start + quoted(s@));
}

proof fn lemma_join_step(parts: Seq<Seq<char>>, i: int)
    requires
        0 <= i < parts.len(),
    ensures
        join(parts.take(i + 1)) == (if i == 0 {
            parts[0]
        } else {
            join(parts.take(i)) + ", "@ + parts[i]
        }),
{
    assert(parts.take(i + 1).drop_last() =~= parts.take(i));
    assert(parts.take(i + 1).last() == parts[i]);
    if i == 0 {
        assert(parts.take(1).len() == 1);
    }
}

/// A node in YAML flow style.
pub fn flow_text_of(y: &Yaml) -> (r: String)
    ensures
        r@ == flow_text(y@),
    decreases y,
{
    match y {
        Yaml::Null => "null".to_owned(),
        Yaml::Bool(b) => if *b {
            "true".to_owned()
        } else {
            "false".to_owned()
        },
        Yaml::Number(n) => if is_number_like(n.as_str()) {
            n.clone()
        } else {
            let mut out = String::new();
            push_quoted(&mut out, n.as_str());
            out
        },
        Yaml::String(s) => {
            let mut out = String::new();
            push_quoted(&mut out, s.as_str());
            out
        },
        Yaml::Sequence(items) => {
            proof {
                y.lemma_sequence_view();
            }
            let ghost parts = item_texts(y@->Sequence_0);
            let mut out = "[".to_owned();
            let mut i: usize = 0;
            assert(parts.take(0) =~= Seq::<Seq<char>>::empty());
            while i < items.len()
                invariant
                    *y == Yaml::Sequence(*items),
                    y@->Sequence_0.len() == items.len(),
                    forall|j: int| 0 <= j < items.len() ==> #[trigger] y@->Sequence_0[j] == items[j]@,
                    parts == item_texts(y@->Sequence_0),
                    i <= items.len(),
                    out@ == "["@ + join(parts.take(i as int)),
                decreases items.len() - i,
            {
                proof {
                    assert(decreases_to!(*y => y->Sequence_0));
                    assert(decreases_to!(*items => items@));
                    assert(decreases_to!(items@ => items@[i as int]));
                    lemma_join_step(parts, i as int);
                }
                if i > 0 {
                    out.append(", ");
                }
                let part = flow_text_of(&items[i]);
                out.append(part.as_str());
                i = i + 1;
            }
            assert(parts.take(i as int) =~= parts);
            out.append("]");
            out
        },
        Yaml::Mapping(entries) => {
            proof {
                y.lemma_mapping_view();
            }
            let ghost parts = entry_texts(y@->Mapping_0);
            let mut out = "{".to_owned();
            let mut i: usize = 0;
            assert(parts.take(0) =~= Seq::<Seq<char>>::empty());
            while i < entries.len()
                invariant
                    *y == Yaml::Mapping(*entries),
                    y@->Mapping_0.len() == entries.len(),
                    forall|j: int|
                        0 <= j < entries.len() ==> #[trigger] y@->Mapping_0[j] == (
                            entries[j].0@,
                            entries[j].1@,
                        ),
                    parts == entry_texts(y@->Mapping_0),
                    i <= entries.len(),
                    out@ == "{"@ + join(parts.take(i as int)),
                decreases entries.len() - i,
            {
                proof {
                    assert(decreases_to!(*y => y->Mapping_0));
                    assert(decreases_to!(*entries => entries@));
                    assert(decreases_to!(entries@ => entries@[i as int]));
                    assert(decreases_to!(entries[i as int] => entries[i as int].0));
                    assert(decreases_to!(entries[i as int] => entries[i as int].1));
                    lemma_join_step(parts, i as int);
                }
                if i > 0 {
                    out.append(", ");
                }
                let k = flow_text_of(&entries[i].0);
                let v = flow_text_of(&entries[i].1);
                out.append(k.as_str());
                out.append(": ");
                out.append(v.as_str());
                i = i + 1;
            }
            assert(parts.take(i as int) =~= parts);
            out.append("}");
            out
        },
    }
}

/// The facts as one YAML flow mapping: the variables a template sees.
pub fn facts_context(facts: &Vec<(String, Yaml)>) -> (r: String)
    ensures
        r@ == context_text(facts_view(*facts)),
{
    let ghost f = facts_view(*facts);
    let ghost parts = fact_texts(f);
    let mut out = "{".to_owned();
    let mut i: usize = 0;
    assert(parts.take(0) =~= Seq::<Seq<char>>::empty());
    while i < facts.len()
        invariant
            f == facts_view(*facts),
            parts == fact_texts(f),
            i <= facts.len(),
            out@ == "{"@ + join(parts.take(i as int)),
        decreases facts.len() - i,
    {
        proof {
            lemma_join_step(parts, i as int);
        }
        if i > 0 {
            out.append(", ");
        }
        push_quoted(&mut out, facts[i].0.as_str());
        out.append(": ");
        let v = flow_text_of(&facts[i].1);
        out.append(v.as_str());
        i = i + 1;
    }
    assert(parts.take(i as int) =~= parts);
    out.append("}");
    out
}

/// Renders a template with the facts as its variables.
pub fn render(name: &str, source: &str, facts: &Vec<(String, Yaml)>) -> (r: Option<String>)
    ensures
        opt_string_view(r) == rendered_of(name@, source@, context_text(facts_view(*facts))),
{
    let context = facts_context(facts);
    render_template(name, source, context.as_str())
}

/// The command that installs a rendered template: the text goes to the
/// command's standard input; a failed rendering is an error.
pub fn install_rendered(command: Vec<String>, rendered: Option<String>) -> (r: Result<
    RunCommandOpts,
    ModuleError,
>)
    ensures
        rendered is None <==> r matches Err(ModuleError::TemplateFailed),
        r is Err ==> r matches Err(ModuleError::TemplateFailed),
        r matches Ok(o) ==> o@ == (OptsView {
            command: command@.map_values(|s: String| s@),
            working_directory: None,
            stdin: Some(StdinView::Text(rendered->0@)),
        }),
{
    match rendered {
        Some(text) => Ok(RunCommandOpts { command, working_directory: None, stdin: Some(StdinSource::Text(text)) }),
        None => Err(ModuleError::TemplateFailed),
    }
}

impl TaskContextInner {
    /// Renders template `source`, named `name`, with this context's facts
    /// and gives the command that installs the result.
    pub fn render_install(&self, command: Vec<String>, name: &str, source: &str) -> (r: Result<
        RunCommandOpts,
        ModuleError,
    >)
        ensures
            rendered_of(name@, source@, context_text(facts_view(self.facts))) is None
                <==> r is Err,
            r matches Ok(o) ==> o@ == (OptsView {
                command: command@.map_values(|s: String| s@),
                working_directory: None,
                stdin: Some(
                    StdinView::Text(
                        rendered_of(name@, source@, context_text(facts_view(self.facts)))->0,
                    ),
                ),
            }),
    {
        let rendered = render(name, source, &self.facts);
        install_rendered(command, rendered)
    }
}

} // verus!
