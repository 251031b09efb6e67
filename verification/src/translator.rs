//! Tool translator for converting between different provider tool formats:
//! tool names are renamed through two tables, and the members of an
//! object of arguments through a per-tool table.
//!
//! Arguments are JSON: an object is held as its members, each with its
//! value's JSON text; any other value is held as its JSON text.
use vstd::prelude::*;
use vstd::string::*;
use crate::string_map::{StringMap, lookup, text_map, text_entries, distinct_keys, lemma_lookup_at};

verus! {

/// The arguments of a tool call.
#[derive(Debug, Clone, PartialEq)]
pub enum ToolArguments {
    /// A JSON object: each member's key with its value's JSON text.
    Object(StringMap<String>),
    /// Any other JSON value, as its JSON text.
    Other(String),
}

impl ToolArguments {
    /// The members of an object, in order, with their values' text; none
    /// for another value.
    pub open spec fn members(&self) -> Seq<(Seq<char>, Seq<char>)> {
        match self {
            ToolArguments::Object(m) => text_entries(*m),
            ToolArguments::Other(_) => Seq::empty(),
        }
    }

    /// The object as a map from keys to values' text.
    pub open spec fn object_map(&self) -> Map<Seq<char>, Seq<char>> {
        match self {
            ToolArguments::Object(m) => text_map(*m),
            ToolArguments::Other(_) => Map::empty(),
        }
    }

    /// An object's members have distinct keys.
    pub open spec fn wf(&self) -> bool {
        match self {
            ToolArguments::Object(m) => m.wf(),
            ToolArguments::Other(_) => true,
        }
    }

    /// The text of a value that is not an object.
    pub open spec fn other_text(&self) -> Seq<char> {
        match self {
            ToolArguments::Object(_) => Seq::empty(),
            ToolArguments::Other(t) => t@,
        }
    }

    /// A copy with the same members or text.
    pub fn duplicate(&self) -> (r: Self)
        ensures
            (r is Object) == (self is Object),
            r.wf() == self.wf(),
            r.members() == self.members(),
            r.object_map() == self.object_map(),
            r.other_text() == self.other_text(),
    {
        match self {
            ToolArguments::Object(m) => ToolArguments::Object(m.duplicate()),
            ToolArguments::Other(t) => ToolArguments::Other(t.clone()),
        }
    }
}

/// A name through a renaming table: its entry, or itself when it has none.
pub open spec fn renamed(table: Map<Seq<char>, Seq<char>>, name: Seq<char>) -> Seq<char> {
    if table.contains_key(name) {
        table[name]
    } else {
        name
    }
}

/// The object built by inserting the members in order, each under its
/// renamed key (a later member replaces an earlier one that landed on the
/// same key).
pub open spec fn remapped(
    table: Map<Seq<char>, Seq<char>>,
    members: Seq<(Seq<char>, Seq<char>)>,
) -> Map<Seq<char>, Seq<char>>
    decreases members.len(),
{
    if members.len() == 0 {
        Map::empty()
    } else {
        remapped(table, members.drop_last()).insert(
            renamed(table, members.last().0),
            members.last().1,
        )
    }
}

/// A key lands in a remapped object only as the renamed key of a member.
pub proof fn lemma_remapped_keys(
    table: Map<Seq<char>, Seq<char>>,
    members: Seq<(Seq<char>, Seq<char>)>,
    k: Seq<char>,
)
    ensures
        remapped(table, members).contains_key(k) <==> exists|j: int|
            0 <= j < members.len() && renamed(table, members[j].0) == k,
    decreases members.len(),
{
    if members.len() > 0 {
        let prefix = members.drop_last();
        lemma_remapped_keys(table, prefix, k);
        if remapped(table, members).contains_key(k) && renamed(table, members.last().0) != k {
            let j = choose|j: int| 0 <= j < prefix.len() && renamed(table, prefix[j].0) == k;
            assert(members[j] == prefix[j]);
        }
        if exists|j: int| 0 <= j < members.len() && renamed(table, members[j].0) == k {
            let j = choose|j: int| 0 <= j < members.len() && renamed(table, members[j].0) == k;
            if j < members.len() - 1 {
                assert(members[j] == prefix[j]);
            }
        }
    }
}

/// Members whose keys the table sends to distinct keys.
pub open spec fn renames_apart(
    table: Map<Seq<char>, Seq<char>>,
    members: Seq<(Seq<char>, Seq<char>)>,
) -> bool {
    forall|a: int, b: int|
        0 <= a < b < members.len() ==> renamed(table, members[a].0) != renamed(table, members[b].0)
}

/// When the table sends the members to distinct keys, each member's value
/// is found under its renamed key.
pub proof fn lemma_remapped_value(
    table: Map<Seq<char>, Seq<char>>,
    members: Seq<(Seq<char>, Seq<char>)>,
    i: int,
)
    requires
        renames_apart(table, members),
        0 <= i < members.len(),
    ensures
        remapped(table, members).contains_key(renamed(table, members[i].0)),
        remapped(table, members)[renamed(table, members[i].0)] == members[i].1,
    decreases members.len(),
{
    if i < members.len() - 1 {
        let prefix = members.drop_last();
        assert(prefix[i] == members[i]);
        assert(renames_apart(table, prefix));
        lemma_remapped_value(table, prefix, i);
    }
}

/// The object a string table stands for is its members inserted in order.
pub proof fn lemma_text_map_is_remapped(m: StringMap<String>)
    requires
        m.wf(),
    ensures
        text_map(m) == remapped(Map::empty(), text_entries(m)),
{
    let es = m.spec_entries();
    let te = text_entries(m);
    assert(renames_apart(Map::empty(), te)) by {
        assert forall|a: int, b: int| 0 <= a < b < te.len() implies renamed(Map::empty(), te[a].0)
            != renamed(Map::empty(), te[b].0) by {
            assert(es[a].0 != es[b].0);
        }
    }
    m.lemma_keys_are_domain();
    assert forall|k: Seq<char>| #[trigger] text_map(m).contains_key(k) == remapped(
        Map::empty(),
        te,
    ).contains_key(k) by {
        lemma_remapped_keys(Map::empty(), te, k);
        assert(text_map(m).contains_key(k) == m.spec_map().contains_key(k));
        if text_map(m).contains_key(k) {
            assert(m.spec_keys().contains(k));
            let j = choose|j: int| 0 <= j < m.spec_keys().len() && m.spec_keys()[j] == k;
            assert(m.spec_keys()[j] == es[j].0 && te[j].0 == es[j].0);
            assert(renamed(Map::empty(), te[j].0) == k);
        }
        if remapped(Map::empty(), te).contains_key(k) {
            let j = choose|j: int| 0 <= j < te.len() && renamed(Map::empty(), te[j].0) == k;
            assert(m.spec_keys()[j] == es[j].0 && te[j].0 == es[j].0);
            assert(m.spec_keys()[j] == k);
            assert(m.spec_keys().contains(k));
        }
    }
    assert forall|k: Seq<char>| #[trigger] text_map(m).contains_key(k) implies text_map(m)[k]
        == remapped(Map::empty(), te)[k] by {
        lemma_remapped_keys(Map::empty(), te, k);
        let j = choose|j: int| 0 <= j < te.len() && renamed(Map::empty(), te[j].0) == k;
        lemma_lookup_at(es, j);
        lemma_remapped_value(Map::empty(), te, j);
    }
    assert(text_map(m) =~= remapped(Map::empty(), te));
}

/// Renaming there and back: when `forward` sends the members to distinct
/// keys and `backward` sends each renamed key back to the member's own
/// key, renaming the object `forward` made (whatever order its members are
/// in) through `backward` gives back the object of the members.
pub proof fn lemma_remap_round_trip(
    forward: Map<Seq<char>, Seq<char>>,
    backward: Map<Seq<char>, Seq<char>>,
    members: Seq<(Seq<char>, Seq<char>)>,
    middle: Seq<(Seq<char>, Seq<char>)>,
)
    requires
        renames_apart(forward, members),
        forall|i: int| 0 <= i < members.len() ==> renamed(backward, renamed(forward, #[trigger] members[i].0)) == members[i].0,
        renames_apart(Map::empty(), middle),
        remapped(Map::empty(), middle) == remapped(forward, members),
    ensures
        remapped(backward, middle) == remapped(Map::empty(), members),
{
    let mid = remapped(forward, members);
    // Each member of the middle object is the renamed key of some member.
    assert forall|j: int| 0 <= j < middle.len() implies exists|i: int|
        0 <= i < members.len() && #[trigger] middle[j].0 == renamed(forward, members[i].0)
            && middle[j].1 == members[i].1 by {
        lemma_remapped_value(Map::empty(), middle, j);
        lemma_remapped_keys(forward, members, middle[j].0);
        let i = choose|i: int| 0 <= i < members.len() && renamed(forward, members[i].0) == middle[j].0;
        lemma_remapped_value(forward, members, i);
    }
    assert(renames_apart(backward, middle)) by {
        assert forall|a: int, b: int| 0 <= a < b < middle.len() implies renamed(backward, middle[a].0)
            != renamed(backward, middle[b].0) by {
            let ia = choose|i: int| 0 <= i < members.len() && middle[a].0 == renamed(forward, members[i].0)
                && middle[a].1 == members[i].1;
            let ib = choose|i: int| 0 <= i < members.len() && middle[b].0 == renamed(forward, members[i].0)
                && middle[b].1 == members[i].1;
            assert(middle[a].0 != middle[b].0);
        }
    }
    let target = remapped(Map::empty(), members);
    let result = remapped(backward, middle);
    assert forall|k: Seq<char>| #[trigger] result.contains_key(k) == target.contains_key(k) by {
        lemma_remapped_keys(backward, middle, k);
        lemma_remapped_keys(Map::empty(), members, k);
        if result.contains_key(k) {
            let j = choose|j: int| 0 <= j < middle.len() && renamed(backward, middle[j].0) == k;
            let i = choose|i: int| 0 <= i < members.len() && middle[j].0 == renamed(forward, members[i].0)
                && middle[j].1 == members[i].1;
            assert(renamed(Map::empty(), members[i].0) == k);
        }
        if target.contains_key(k) {
            let i = choose|i: int| 0 <= i < members.len() && renamed(Map::empty(), members[i].0) == k;
            lemma_remapped_value(forward, members, i);
            lemma_remapped_keys(Map::empty(), middle, renamed(forward, members[i].0));
            let j = choose|j: int| 0 <= j < middle.len() && renamed(Map::empty(), middle[j].0) == renamed(forward, members[i].0);
            assert(renamed(backward, middle[j].0) == k);
        }
    }
    assert forall|k: Seq<char>| #[trigger] result.contains_key(k) implies result[k] == target[k] by {
        lemma_remapped_keys(backward, middle, k);
        let j = choose|j: int| 0 <= j < middle.len() && renamed(backward, middle[j].0) == k;
        let i = choose|i: int| 0 <= i < members.len() && middle[j].0 == renamed(forward, members[i].0)
            && middle[j].1 == members[i].1;
        lemma_remapped_value(backward, middle, j);
        assert(renames_apart(Map::empty(), members)) by {
            assert forall|a: int, b: int| 0 <= a < b < members.len() implies renamed(Map::empty(), members[a].0)
                != renamed(Map::empty(), members[b].0) by {
                assert(renamed(forward, members[a].0) != renamed(forward, members[b].0));
            }
        }
        lemma_remapped_value(Map::empty(), members, i);
    }
    assert(result =~= target);
}

/// Translating an object's arguments there and back: when the forward
/// table sends its keys to distinct keys and the backward table sends
/// each of them back, the object comes back as it was.
pub proof fn lemma_arguments_round_trip(
    forward: Map<Seq<char>, Seq<char>>,
    backward: Map<Seq<char>, Seq<char>>,
    args: ToolArguments,
    translated: ToolArguments,
)
    requires
        args.wf(),
        translated.wf(),
        args is Object,
        translated is Object,
        renames_apart(forward, args.members()),
        forall|i: int| 0 <= i < args.members().len() ==> renamed(backward, renamed(forward, #[trigger] args.members()[i].0)) == args.members()[i].0,
        translated.object_map() == remapped(forward, args.members()),
    ensures
        remapped(backward, translated.members()) == args.object_map(),
{
    let a = args->Object_0;
    let t = translated->Object_0;
    lemma_text_map_is_remapped(a);
    lemma_text_map_is_remapped(t);
    let te = text_entries(t);
    assert(renames_apart(Map::empty(), te)) by {
        assert forall|x: int, y: int| 0 <= x < y < te.len() implies renamed(Map::empty(), te[x].0)
            != renamed(Map::empty(), te[y].0) by {
            assert(t.spec_entries()[x].0 != t.spec_entries()[y].0);
        }
    }
    lemma_remap_round_trip(forward, backward, args.members(), te);
}

/// Configuration for tool translation
#[derive(Debug, Clone)]
pub struct ToolTranslationConfig {
    /// Mapping from provider tool names to anthropic tool names
    pub anthropic_mapping: StringMap<String>,
    /// Mapping from anthropic tool names to provider tool names
    pub provider_mapping: StringMap<String>,
    /// Argument mappings for specific tools
    pub argument_mappings: StringMap<StringMap<String>>,
}

impl ToolTranslationConfig {
    /// Every table keeps distinct keys.
    pub open spec fn wf(&self) -> bool {
        &&& self.anthropic_mapping.wf()
        &&& self.provider_mapping.wf()
        &&& self.argument_mappings.wf()
        &&& forall|t: Seq<char>| #[trigger]
            self.argument_mappings.spec_map().contains_key(t)
                ==> self.argument_mappings.spec_map()[t].wf()
    }

    /// Provider tool names to Anthropic tool names.
    pub open spec fn to_anthropic_names(&self) -> Map<Seq<char>, Seq<char>> {
        text_map(self.anthropic_mapping)
    }

    /// Anthropic tool names to provider tool names.
    pub open spec fn to_provider_names(&self) -> Map<Seq<char>, Seq<char>> {
        text_map(self.provider_mapping)
    }

    /// The argument-key table of each tool that has one.
    pub open spec fn argument_tables(&self) -> Map<Seq<char>, Map<Seq<char>, Seq<char>>> {
        self.argument_mappings.spec_map().map_values(|m: StringMap<String>| text_map(m))
    }
}

/// Arguments as a tool's argument table leaves them: an object has its
/// members renamed when the tool has a table; anything else is kept.
pub open spec fn translated_members(
    tables: Map<Seq<char>, Map<Seq<char>, Seq<char>>>,
    tool: Seq<char>,
    args: ToolArguments,
) -> Map<Seq<char>, Seq<char>> {
    if tables.contains_key(tool) && args is Object {
        remapped(tables[tool], args.members())
    } else {
        args.object_map()
    }
}

/// The default provider-to-Anthropic tool names.
pub open spec fn default_anthropic_names() -> Map<Seq<char>, Seq<char>> {
    map![
        "terminal"@ => "bash"@,
        "file_operation"@ => "file_editor"@,
        "python"@ => "python_interpreter"@,
        "http_request"@ => "web_search"@,
    ]
}

/// The default Anthropic-to-provider tool names: the reverse table.
pub open spec fn default_provider_names() -> Map<Seq<char>, Seq<char>> {
    map![
        "bash"@ => "terminal"@,
        "file_editor"@ => "file_operation"@,
        "python_interpreter"@ => "python"@,
        "web_search"@ => "http_request"@,
    ]
}

/// The default argument tables.
pub open spec fn default_argument_tables() -> Map<Seq<char>, Map<Seq<char>, Seq<char>>> {
    map![
        "terminal"@ => map!["cmd"@ => "command"@],
        "bash"@ => map!["command"@ => "cmd"@],
        "file_operation"@ => map!["operation"@ => "action"@, "file_path"@ => "path"@],
        "file_editor"@ => map!["action"@ => "operation"@, "path"@ => "file_path"@],
    ]
}

/// Tool translator for converting between provider formats
pub struct ToolTranslator {
    config: ToolTranslationConfig,
}

/// A string table from (key, value) pairs with distinct keys, in order.
fn table_of(pairs: &[(&str, &str)]) -> (r: StringMap<String>)
    requires
        forall|i: int, j: int| 0 <= i < j < pairs@.len() ==> pairs@[i].0@ != pairs@[j].0@,
    ensures
        r.wf(),
        text_entries(r) == pairs@.map_values(|p: (&str, &str)| (p.0@, p.1@)),
        text_map(r) == remapped(Map::empty(), pairs@.map_values(|p: (&str, &str)| (p.0@, p.1@))),
{
    let ghost ps = pairs@.map_values(|p: (&str, &str)| (p.0@, p.1@));
    let mut m: StringMap<String> = StringMap::new();
    let mut i: usize = 0;
    while i < pairs.len()
        invariant
            i <= pairs.len(),
            ps == pairs@.map_values(|p: (&str, &str)| (p.0@, p.1@)),
            forall|a: int, b: int| 0 <= a < b < pairs@.len() ==> pairs@[a].0@ != pairs@[b].0@,
            m.wf(),
            text_entries(m) == ps.take(i as int),
            text_map(m) == remapped(Map::empty(), ps.take(i as int)),
        decreases pairs.len() - i,
    {
        let (k, v) = pairs[i];
        assert(!m.spec_map().contains_key(k@)) by {
            if m.spec_map().contains_key(k@) {
                assert(text_map(m).contains_key(k@));
                assert(remapped(Map::empty(), ps.take(i as int)).dom().contains(k@));
                lemma_remapped_keys(Map::empty(), ps.take(i as int), k@);
                let j = choose|j: int| 0 <= j < ps.take(i as int).len() && renamed(Map::empty(), ps.take(i as int)[j].0) == k@;
                assert(pairs@[j].0@ != pairs@[i as int].0@);
            }
        }
        let ghost before = text_entries(m);
        m.insert(String::from_str(k), String::from_str(v));
        assert(text_entries(m) =~= before.push((k@, v@)));
        assert(ps.take(i + 1).drop_last() == ps.take(i as int));
        assert(ps.take(i + 1).last() == (k@, v@));
        assert(text_map(m) =~= remapped(Map::empty(), ps.take(i + 1)));
        i = i + 1;
    }
    assert(ps.take(pairs.len() as int) == ps);
    m
}

/// The reverse of a string table: each value mapped back to its key.
fn reversed(table: &StringMap<String>) -> (r: StringMap<String>)
    ensures
        r.wf(),
        text_map(r) == remapped(
            Map::empty(),
            text_entries(*table).map_values(|e: (Seq<char>, Seq<char>)| (e.1, e.0)),
        ),
{
    let ghost es = text_entries(*table).map_values(|e: (Seq<char>, Seq<char>)| (e.1, e.0));
    let mut m: StringMap<String> = StringMap::new();
    let n = table.len();
    let mut i: usize = 0;
    while i < n
        invariant
            i <= n,
            table.spec_entries().len() == n,
            es == text_entries(*table).map_values(|e: (Seq<char>, Seq<char>)| (e.1, e.0)),
            m.wf(),
            text_map(m) == remapped(Map::empty(), es.take(i as int)),
        decreases n - i,
    {
        let (k, v) = table.entry_at(i);
        m.insert(v.clone(), k.clone());
        assert(es.take(i + 1).drop_last() == es.take(i as int));
        assert(es.take(i + 1).last() == (v@, k@));
        assert(text_map(m) =~= remapped(Map::empty(), es.take(i + 1)));
        i = i + 1;
    }
    assert(es.take(n as int) == es);
    m
}

/// The members of `args` with their keys renamed through `table`.
fn remap_members(table: &StringMap<String>, args: &StringMap<String>) -> (r: StringMap<String>)
    ensures
        r.wf(),
        text_map(r) == remapped(text_map(*table), text_entries(*args)),
{
    let ghost es = text_entries(*args);
    let ghost t = text_map(*table);
    let mut m: StringMap<String> = StringMap::new();
    let n = args.len();
    let mut i: usize = 0;
    while i < n
        invariant
            i <= n,
            args.spec_entries().len() == n,
            es == text_entries(*args),
            t == text_map(*table),
            m.wf(),
            text_map(m) == remapped(t, es.take(i as int)),
        decreases n - i,
    {
        let (k, v) = args.entry_at(i);
        let key = match table.get(k.as_str()) {
            Some(nk) => nk.clone(),
            None => k.clone(),
        };
        assert(key@ == renamed(t, k@));
        m.insert(key, v.clone());
        assert(es.take(i + 1).drop_last() == es.take(i as int));
        assert(es.take(i + 1).last() == (k@, v@));
        assert(text_map(m) =~= remapped(t, es.take(i + 1)));
        i = i + 1;
    }
    assert(es.take(n as int) == es);
    m
}

impl ToolTranslator {
    /// The configuration in force.
    pub closed spec fn config(&self) -> ToolTranslationConfig {
        self.config
    }

    /// Create a new tool translator with default configuration
    pub fn new() -> (r: Self)
        ensures
            r.config().wf(),
            r.config().to_anthropic_names() == default_anthropic_names(),
            r.config().to_provider_names() == default_provider_names(),
            r.config().argument_tables() == default_argument_tables(),
    {
        let config = Self::default_config();
        Self::with_config(config)
    }

    /// Create a new tool translator with custom configuration
    pub fn with_config(config: ToolTranslationConfig) -> (r: Self)
        ensures
            r.config() == config,
    {
        Self { config }
    }

    /// Create default tool translation configuration: four tool names,
    /// their reverse, and the argument keys of the shell and file tools in
    /// both directions.
    pub fn default_config() -> (r: ToolTranslationConfig)
        ensures
            r.wf(),
            r.to_anthropic_names() == default_anthropic_names(),
            r.to_provider_names() == default_provider_names(),
            r.argument_tables() == default_argument_tables(),
    {
        let names: [(&str, &str); 4] = [
            ("terminal", "bash"),
            ("file_operation", "file_editor"),
            ("python", "python_interpreter"),
            ("http_request", "web_search"),
        ];
        proof {
            reveal_strlit("terminal");
            reveal_strlit("file_operation");
            reveal_strlit("python");
            reveal_strlit("http_request");
            reveal_strlit("operation");
            reveal_strlit("file_path");
            reveal_strlit("action");
            reveal_strlit("path");
            assert("operation"@[0] != "file_path"@[0]);
            assert(names@[0].0@ == "terminal"@);
            assert(names@[1].0@ == "file_operation"@);
            assert(names@[2].0@ == "python"@);
            assert(names@[3].0@ == "http_request"@);
            assert(forall|i: int, j: int| 0 <= i < j < 4 ==> names@[i].0@.len() != names@[j].0@.len());
        }
        let anthropic_mapping = table_of(names.as_slice());
        let provider_mapping = reversed(&anthropic_mapping);
        proof {
            reveal_strlit("terminal");
            reveal_strlit("bash");
            reveal_strlit("file_operation");
            reveal_strlit("file_editor");
            reveal_strlit("python");
            reveal_strlit("python_interpreter");
            reveal_strlit("http_request");
            reveal_strlit("web_search");
            let ps = names@.map_values(|p: (&str, &str)| (p.0@, p.1@));
            assert(remapped(Map::empty(), ps) =~= default_anthropic_names()) by {
                reveal_with_fuel(remapped, 5);
            }
        }
        let terminal_args = table_of([("cmd", "command")].as_slice());
        let bash_args = table_of([("command", "cmd")].as_slice());
        let file_op_args = table_of([("operation", "action"), ("file_path", "path")].as_slice());
        let editor_pairs: [(&str, &str); 2] = [("action", "operation"), ("path", "file_path")];
        assert(editor_pairs@[0].0@.len() != editor_pairs@[1].0@.len());
        let file_editor_args = table_of(editor_pairs.as_slice());
        proof {
            reveal_strlit("cmd");
            reveal_strlit("command");
            reveal_strlit("operation");
            reveal_strlit("action");
            reveal_strlit("file_path");
            reveal_strlit("path");
            let ps = names@.map_values(|p: (&str, &str)| (p.0@, p.1@));
            let rs = ps.map_values(|e: (Seq<char>, Seq<char>)| (e.1, e.0));
            assert(remapped(Map::empty(), rs) =~= default_provider_names()) by {
                reveal_with_fuel(remapped, 5);
            }
            assert(text_map(terminal_args) =~= map!["cmd"@ => "command"@]) by {
                reveal_with_fuel(remapped, 2);
            }
            assert(text_map(bash_args) =~= map!["command"@ => "cmd"@]) by {
                reveal_with_fuel(remapped, 2);
            }
            assert(text_map(file_op_args) =~= map!["operation"@ => "action"@, "file_path"@ => "path"@]) by {
                reveal_with_fuel(remapped, 3);
            }
            assert(text_map(file_editor_args) =~= map!["action"@ => "operation"@, "path"@ => "file_path"@]) by {
                reveal_with_fuel(remapped, 3);
            }
        }
        let mut argument_mappings: StringMap<StringMap<String>> = StringMap::new();
        argument_mappings.insert(String::from_str("terminal"), terminal_args);
        argument_mappings.insert(String::from_str("bash"), bash_args);
        argument_mappings.insert(String::from_str("file_operation"), file_op_args);
        argument_mappings.insert(String::from_str("file_editor"), file_editor_args);
        proof {
            let tables = map![
                "terminal"@ => terminal_args,
                "bash"@ => bash_args,
                "file_operation"@ => file_op_args,
                "file_editor"@ => file_editor_args,
            ];
            assert(argument_mappings.spec_map() =~= tables);
            assert(argument_mappings.spec_map().map_values(|m: StringMap<String>| text_map(m))
                =~= default_argument_tables());
        }
        ToolTranslationConfig { anthropic_mapping, provider_mapping, argument_mappings }
    }

    /// Translate tool call from provider format to Anthropic format
    pub fn translate_to_anthropic(&self, tool_name: &str, arguments: &ToolArguments) -> (r: (
        String,
        ToolArguments,
    ))
        ensures
            arguments.wf() ==> r.1.wf(),
            r.0@ == renamed(self.config().to_anthropic_names(), tool_name@),
            (r.1 is Object) == (arguments is Object),
            r.1.object_map() == translated_members(
                self.config().argument_tables(),
                tool_name@,
                *arguments,
            ),
            r.1.other_text() == arguments.other_text(),
            !self.config().argument_tables().contains_key(tool_name@) ==> r.1.members()
                == arguments.members(),
    {
        let translated_name = rename(&self.config.anthropic_mapping, tool_name);
        let translated_args = self.translate_arguments(tool_name, arguments);
        (translated_name, translated_args)
    }

    /// Translate tool call from Anthropic format to provider format. The
    /// argument tables are keyed by the tool name given and already point
    /// the way the call goes.
    pub fn translate_to_provider(&self, tool_name: &str, arguments: &ToolArguments) -> (r: (
        String,
        ToolArguments,
    ))
        ensures
            arguments.wf() ==> r.1.wf(),
            r.0@ == renamed(self.config().to_provider_names(), tool_name@),
            (r.1 is Object) == (arguments is Object),
            r.1.object_map() == translated_members(
                self.config().argument_tables(),
                tool_name@,
                *arguments,
            ),
            r.1.other_text() == arguments.other_text(),
            !self.config().argument_tables().contains_key(tool_name@) ==> r.1.members()
                == arguments.members(),
    {
        let translated_name = rename(&self.config.provider_mapping, tool_name);
        let translated_args = self.translate_arguments(tool_name, arguments);
        (translated_name, translated_args)
    }

    /// The arguments with their keys renamed through the tool's table, when
    /// the tool has one and the arguments are an object.
    fn translate_arguments(&self, tool_name: &str, arguments: &ToolArguments) -> (r: ToolArguments)
        ensures
            arguments.wf() ==> r.wf(),
            (r is Object) == (arguments is Object),
            r.object_map() == translated_members(
                self.config().argument_tables(),
                tool_name@,
                *arguments,
            ),
            r.other_text() == arguments.other_text(),
            !self.config().argument_tables().contains_key(tool_name@) ==> r.members()
                == arguments.members(),
    {
        if let Some(arg_mapping) = self.config.argument_mappings.get(tool_name) {
            assert(self.config().argument_tables()[tool_name@] == text_map(*arg_mapping));
            if let ToolArguments::Object(obj) = arguments {
                return ToolArguments::Object(remap_members(arg_mapping, obj));
            }
        }
        arguments.duplicate()
    }

    /// Add a new tool mapping, in both directions.
    pub fn add_tool_mapping(&mut self, provider_tool: &str, anthropic_tool: &str)
        requires
            old(self).config().wf(),
        ensures
            final(self).config().wf(),
            final(self).config().to_anthropic_names() == old(self).config().to_anthropic_names().insert(
                provider_tool@,
                anthropic_tool@,
            ),
            final(self).config().to_provider_names() == old(self).config().to_provider_names().insert(
                anthropic_tool@,
                provider_tool@,
            ),
            final(self).config().argument_tables() == old(self).config().argument_tables(),
            renamed(final(self).config().to_anthropic_names(), provider_tool@) == anthropic_tool@,
            renamed(final(self).config().to_provider_names(), anthropic_tool@) == provider_tool@,
    {
        self.config.anthropic_mapping.insert(
            String::from_str(provider_tool),
            String::from_str(anthropic_tool),
        );
        self.config.provider_mapping.insert(
            String::from_str(anthropic_tool),
            String::from_str(provider_tool),
        );
        assert(self.config().to_anthropic_names() =~= old(self).config().to_anthropic_names().insert(
            provider_tool@,
            anthropic_tool@,
        ));
        assert(self.config().to_provider_names() =~= old(self).config().to_provider_names().insert(
            anthropic_tool@,
            provider_tool@,
        ));
    }

    /// Add argument mapping for a tool: the tool's table, created empty
    /// when it has none, maps `provider_arg` to `anthropic_arg`.
    pub fn add_argument_mapping(&mut self, tool_name: &str, provider_arg: &str, anthropic_arg: &str)
        requires
            old(self).config().wf(),
        ensures
            final(self).config().wf(),
            final(self).config().to_anthropic_names() == old(self).config().to_anthropic_names(),
            final(self).config().to_provider_names() == old(self).config().to_provider_names(),
            final(self).config().argument_tables() == old(self).config().argument_tables().insert(
                tool_name@,
                (if old(self).config().argument_tables().contains_key(tool_name@) {
                    old(self).config().argument_tables()[tool_name@]
                } else {
                    Map::empty()
                }).insert(provider_arg@, anthropic_arg@),
            ),
    {
        let ghost old_tables = self.config().argument_tables();
        let ghost old_maps = self.config.argument_mappings.spec_map();
        let existing = self.config.argument_mappings.remove(tool_name);
        let mut table = match existing {
            Some(t) => {
                assert(old_maps.contains_key(tool_name@) && old_maps[tool_name@] == t);
                t
            },
            None => {
                assert(!old_tables.contains_key(tool_name@));
                let t: StringMap<String> = StringMap::new();
                assert(text_map(t) =~= Map::empty());
                t
            },
        };
        let ghost before = text_map(table);
        table.insert(String::from_str(provider_arg), String::from_str(anthropic_arg));
        assert(text_map(table) =~= before.insert(provider_arg@, anthropic_arg@));
        self.config.argument_mappings.insert(String::from_str(tool_name), table);
        assert(self.config.argument_mappings.spec_map() =~= old_maps.insert(tool_name@, table));
        assert(self.config().argument_tables() =~= old_tables.insert(
            tool_name@,
            (if old_tables.contains_key(tool_name@) {
                old_tables[tool_name@]
            } else {
                Map::empty()
            }).insert(provider_arg@, anthropic_arg@),
        ));
    }
}

/// A name through a table: its entry, or itself when it has none.
fn rename(table: &StringMap<String>, name: &str) -> (r: String)
    ensures
        r@ == renamed(text_map(*table), name@),
{
    match table.get(name) {
        Some(n) => n.clone(),
        None => String::from_str(name),
    }
}

/// The default tables rename tool names both ways: each provider name
/// comes back from its Anthropic name, and each Anthropic name from its
/// provider name.
pub proof fn lemma_default_names_invert()
    ensures
        forall|p: Seq<char>| #[trigger] default_anthropic_names().contains_key(p) ==> renamed(
            default_provider_names(),
            renamed(default_anthropic_names(), p),
        ) == p,
        forall|a: Seq<char>| #[trigger] default_provider_names().contains_key(a) ==> renamed(
            default_anthropic_names(),
            renamed(default_provider_names(), a),
        ) == a,
{
    reveal_strlit("terminal");
    reveal_strlit("bash");
    reveal_strlit("file_operation");
    reveal_strlit("file_editor");
    reveal_strlit("python");
    reveal_strlit("python_interpreter");
    reveal_strlit("http_request");
    reveal_strlit("web_search");
    assert("bash"@[0] != "file_editor"@[0]);
    assert("python"@[0] != "terminal"@[0]);
    assert("file_operation"@.len() == 14 && "python"@.len() == 6 && "http_request"@.len() == 12);
    assert("python_interpreter"@.len() == 18 && "web_search"@.len() == 10 && "bash"@.len() == 4);
    assert("file_operation"@ != "python"@ && "file_operation"@ != "http_request"@);
    assert("python"@ != "http_request"@ && "terminal"@ != "http_request"@);
    assert("file_editor"@ != "python_interpreter"@ && "file_editor"@ != "web_search"@);
    assert("python_interpreter"@ != "web_search"@ && "bash"@ != "web_search"@);
    let an = default_anthropic_names();
    let pn = default_provider_names();
    assert(an["terminal"@] == "bash"@ && pn["bash"@] == "terminal"@);
    assert(an["file_operation"@] == "file_editor"@ && pn["file_editor"@] == "file_operation"@);
    assert(an["python"@] == "python_interpreter"@ && pn["python_interpreter"@] == "python"@);
    assert(an["http_request"@] == "web_search"@ && pn["web_search"@] == "http_request"@);
    assert forall|p: Seq<char>| #[trigger] an.contains_key(p) implies renamed(pn, renamed(an, p)) == p by {
        assert(p == "terminal"@ || p == "file_operation"@ || p == "python"@ || p == "http_request"@);
    }
    assert forall|a: Seq<char>| #[trigger] pn.contains_key(a) implies renamed(an, renamed(pn, a)) == a by {
        assert(a == "bash"@ || a == "file_editor"@ || a == "python_interpreter"@ || a == "web_search"@);
    }
}

} // verus!
