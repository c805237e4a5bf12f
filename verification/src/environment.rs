//! The environment variables that an agent process is started with.
use crate::text::same_text;
use vstd::prelude::*;

verus! {

broadcast use vstd::string::group_string_axioms;

/// The variables that a list of names and values sets, the later ones over the
/// earlier ones.
pub open spec fn entries_map(entries: Seq<(String, String)>) -> Map<Seq<char>, Seq<char>>
    decreases entries.len(),
{
    if entries.len() == 0 {
        Map::empty()
    } else {
        entries_map(entries.drop_last()).insert(entries.last().0@, entries.last().1@)
    }
}

/// Whether no name stands twice in a list of names and values.
pub open spec fn names_distinct(entries: Seq<(String, String)>) -> bool {
    forall|i: int, j: int|
        0 <= i < j < entries.len() ==> (#[trigger] entries[i]).0@ != (#[trigger] entries[j]).0@
}

/// What a list without repeated names sets: each name in it to its value, and
/// nothing else.
proof fn lemma_entries_map(entries: Seq<(String, String)>)
    requires
        names_distinct(entries),
    ensures
        forall|i: int|
            0 <= i < entries.len() ==> entries_map(entries).contains_key(
                (#[trigger] entries[i]).0@,
            ) && entries_map(entries)[entries[i].0@] == entries[i].1@,
        forall|name: Seq<char>| #[trigger]
            entries_map(entries).contains_key(name) ==> exists|i: int|
                0 <= i < entries.len() && (#[trigger] entries[i]).0@ == name,
    decreases entries.len(),
{
    if entries.len() > 0 {
        let rest = entries.drop_last();
        let last = entries.len() - 1;
        lemma_entries_map(rest);
        assert forall|i: int| 0 <= i < entries.len() implies entries_map(entries).contains_key(
            (#[trigger] entries[i]).0@,
        ) && entries_map(entries)[entries[i].0@] == entries[i].1@ by {
            if i < last {
                assert(rest[i] == entries[i]);
                assert(entries[i].0@ != entries[last].0@);
            }
        }
        assert forall|name: Seq<char>| #[trigger]
            entries_map(entries).contains_key(name) implies exists|i: int|
            0 <= i < entries.len() && (#[trigger] entries[i]).0@ == name by {
            if name == entries[last].0@ {
            } else {
                assert(entries_map(rest).contains_key(name));
                let i = choose|i: int| 0 <= i < rest.len() && (#[trigger] rest[i]).0@ == name;
                assert(entries[i].0@ == name);
            }
        }
    }
}

/// A set of environment variables, in the order in which they were first set.
#[derive(Debug)]
pub struct EnvVars {
    entries: Vec<(String, String)>,
}

impl View for EnvVars {
    type V = Map<Seq<char>, Seq<char>>;

    closed spec fn view(&self) -> Map<Seq<char>, Seq<char>> {
        entries_map(self.entries@)
    }
}

impl EnvVars {
    /// No variable is held twice.
    #[verifier::type_invariant]
    spec fn well_formed(self) -> bool {
        names_distinct(self.entries@)
    }

    /// No variables.
    pub fn new() -> (vars: EnvVars)
        ensures
            vars@ == Map::<Seq<char>, Seq<char>>::empty(),
    {
        EnvVars { entries: Vec::new() }
    }

    /// Whether there are no variables.
    pub fn is_empty(&self) -> (empty: bool)
        ensures
            empty == (self@ == Map::<Seq<char>, Seq<char>>::empty()),
    {
        proof {
            use_type_invariant(self);
            lemma_entries_map(self.entries@);
            if self.entries@.len() > 0 {
                assert(self@.contains_key(self.entries@[0].0@));
            }
        }
        self.entries.len() == 0
    }

    /// The place of the variable `name`.
    fn position(&self, name: &str) -> (found: Option<usize>)
        ensures
            (match found {
                Some(i) => i < self.entries@.len() && self.entries@[i as int].0@ == name@
                    && self@.contains_key(name@) && self@[name@] == self.entries@[i as int].1@,
                None => !self@.contains_key(name@) && forall|i: int|
                    0 <= i < self.entries@.len() ==> (#[trigger] self.entries@[i]).0@ != name@,
            }),
    {
        proof {
            use_type_invariant(self);
            lemma_entries_map(self.entries@);
        }
        let mut i: usize = 0;
        while i < self.entries.len()
            invariant
                0 <= i <= self.entries.len(),
                self@ == entries_map(self.entries@),
                forall|j: int|
                    0 <= j < self.entries@.len() ==> self@.contains_key(
                        (#[trigger] self.entries@[j]).0@,
                    ) && self@[self.entries@[j].0@] == self.entries@[j].1@,
                forall|j: int| 0 <= j < i ==> (#[trigger] self.entries@[j]).0@ != name@,
            decreases self.entries.len() - i,
        {
            if same_text(self.entries[i].0.as_str(), name) {
                return Some(i);
            }
            i = i + 1;
        }
        None
    }

    /// Whether the variable `name` is set.
    pub fn contains_key(&self, name: &str) -> (found: bool)
        ensures
            found == self@.contains_key(name@),
    {
        self.position(name).is_some()
    }

    /// The value of the variable `name`, where it is set.
    pub fn get(&self, name: &str) -> (value: Option<&str>)
        ensures
            (match value {
                Some(value) => self@.contains_key(name@) && self@[name@] == value@,
                None => !self@.contains_key(name@),
            }),
    {
        match self.position(name) {
            Some(i) => Some(self.entries[i].1.as_str()),
            None => None,
        }
    }

    /// Sets the variable `name` to `value`.
    pub fn insert(&mut self, name: String, value: String)
        ensures
            final(self)@ == old(self)@.insert(name@, value@),
    {
        let found = self.position(name.as_str());
        proof {
            use_type_invariant(&*self);
            lemma_entries_map(self.entries@);
        }
        let mut entries: Vec<(String, String)> = Vec::new();
        std::mem::swap(&mut entries, &mut self.entries);
        let ghost before = entries@;
        match found {
            Some(i) => {
                entries.set(i, (name, value));
                proof {
                    assert forall|j: int, k: int| 0 <= j < k < entries@.len() implies (
                    #[trigger] entries@[j]).0@ != (#[trigger] entries@[k]).0@ by {
                        assert(entries@[j].0@ == before[j].0@);
                        assert(entries@[k].0@ == before[k].0@);
                    }
                    lemma_entries_map(entries@);
                    let after = entries_map(entries@);
                    let wanted = entries_map(before).insert(name@, value@);
                    assert forall|n: Seq<char>| after.contains_key(n) == wanted.contains_key(
                        n,
                    ) by {
                        if after.contains_key(n) {
                            let j = choose|j: int|
                                0 <= j < entries@.len() && (#[trigger] entries@[j]).0@ == n;
                            assert(before[j].0@ == n);
                        }
                        if wanted.contains_key(n) {
                            if n != name@ {
                                let j = choose|j: int|
                                    0 <= j < before.len() && (#[trigger] before[j]).0@ == n;
                                assert(entries@[j].0@ == n);
                            } else {
                                assert(entries@[i as int].0@ == n);
                            }
                        }
                    }
                    assert forall|n: Seq<char>| wanted.contains_key(n) implies after[n]
                        == wanted[n] by {
                        if n == name@ {
                            assert(entries@[i as int].0@ == n);
                        } else {
                            let j = choose|j: int|
                                0 <= j < before.len() && (#[trigger] before[j]).0@ == n;
                            assert(entries@[j] == before[j]);
                        }
                    }
                    assert(after =~= wanted);
                }
            },
            None => {
                entries.push((name, value));
                proof {
                    assert(entries@.drop_last() =~= before);
                }
            },
        }
        self.entries = entries;
    }

    /// The variables as a list without repeated names.
    pub fn entries(&self) -> (entries: &Vec<(String, String)>)
        ensures
            names_distinct(entries@),
            entries_map(entries@) == self@,
    {
        proof {
            use_type_invariant(self);
        }
        &self.entries
    }
}

/// Whether a configured value stands for a variable of the process: `${NAME}`.
pub open spec fn is_reference(value: Seq<char>) -> bool {
    &&& value.len() >= 3
    &&& value.take(2) == "${"@
    &&& value.last() == '}'
}

/// The name of the variable that a reference stands for.
pub open spec fn referenced_name(value: Seq<char>) -> Seq<char> {
    value.subrange(2, value.len() - 1)
}

/// What a configured value comes to, given the variables of the process: a
/// reference to a variable that is not set comes to nothing, and a value that is
/// no reference to itself.
pub open spec fn expanded(value: Seq<char>, process: Map<Seq<char>, Seq<char>>) -> Seq<char> {
    if is_reference(value) {
        if process.contains_key(referenced_name(value)) {
            process[referenced_name(value)]
        } else {
            Seq::empty()
        }
    } else {
        value
    }
}

/// The name of the variable that a configured value stands for, where it stands
/// for one.
pub fn reference_name(value: &str) -> (name: Option<String>)
    ensures
        (match name {
            Some(name) => is_reference(value@) && name@ == referenced_name(value@),
            None => !is_reference(value@),
        }),
{
    let length: usize = value.unicode_len();
    if length >= 3 && same_text(value.substring_char(0, 2), "${") && value.get_char(length - 1)
        == '}' {
        Some(value.substring_char(2, length - 1).to_owned())
    } else {
        None
    }
}

/// Replaces a value of the form `${NAME}` by the value of the variable `NAME` of
/// the process, or by nothing where it is not set. Any other value stays as it is.
pub fn expand_env(value: &str, process: &EnvVars) -> (result: String)
    ensures
        result@ == expanded(value@, process@),
{
    match reference_name(value) {
        Some(name) => match process.get(name.as_str()) {
            Some(found) => found.to_owned(),
            None => String::new(),
        },
        None => value.to_owned(),
    }
}

/// The characters of the texts of a list.
pub open spec fn texts(list: Seq<String>) -> Seq<Seq<char>> {
    list.map_values(|text: String| text@)
}

/// The names of `inherit` that are taken from the process: those that are not
/// configured and that the process has, each once, in the order in which they
/// are first listed.
pub open spec fn inherited_names(
    explicit: Map<Seq<char>, Seq<char>>,
    inherit: Seq<Seq<char>>,
    process: Map<Seq<char>, Seq<char>>,
) -> Seq<Seq<char>>
    decreases inherit.len(),
{
    if inherit.len() == 0 {
        Seq::empty()
    } else {
        let earlier = inherited_names(explicit, inherit.drop_last(), process);
        let name = inherit.last();
        if !explicit.contains_key(name) && process.contains_key(name) && !earlier.contains(name) {
            earlier.push(name)
        } else {
            earlier
        }
    }
}

/// The variables for an agent: the configured ones, expanded, and of those to
/// inherit the ones that are not configured and that the process has.
pub open spec fn agent_vars(
    explicit: Map<Seq<char>, Seq<char>>,
    inherit: Seq<Seq<char>>,
    process: Map<Seq<char>, Seq<char>>,
) -> Map<Seq<char>, Seq<char>> {
    Map::new(
        |name: Seq<char>|
            explicit.contains_key(name) || (inherit.contains(name) && process.contains_key(name)),
        |name: Seq<char>|
            if explicit.contains_key(name) {
                expanded(explicit[name], process)
            } else {
                process[name]
            },
    )
}

/// The names that are inherited are those that are listed, that the process has
/// and that are not configured.
proof fn lemma_inherited_names(
    explicit: Map<Seq<char>, Seq<char>>,
    inherit: Seq<Seq<char>>,
    process: Map<Seq<char>, Seq<char>>,
)
    ensures
        forall|name: Seq<char>| #[trigger]
            inherited_names(explicit, inherit, process).contains(name) <==> inherit.contains(name)
                && process.contains_key(name) && !explicit.contains_key(name),
        inherited_names(explicit, inherit, process).no_duplicates(),
    decreases inherit.len(),
{
    if inherit.len() > 0 {
        let rest = inherit.drop_last();
        let earlier = inherited_names(explicit, rest, process);
        let all = inherited_names(explicit, inherit, process);
        let last = inherit.last();
        lemma_inherited_names(explicit, rest, process);
        assert(inherit[inherit.len() - 1] == last);
        assert forall|name: Seq<char>| #[trigger] all.contains(name) <==> inherit.contains(name)
            && process.contains_key(name) && !explicit.contains_key(name) by {
            if inherit.contains(name) && name != last {
                let i = choose|i: int| 0 <= i < inherit.len() && inherit[i] == name;
                assert(rest[i] == name);
            }
            if rest.contains(name) {
                let i = choose|i: int| 0 <= i < rest.len() && rest[i] == name;
                assert(inherit[i] == name);
            }
            if all != earlier {
                assert(all == earlier.push(last));
                assert(all[all.len() - 1] == last);
                if earlier.contains(name) {
                    let i = choose|i: int| 0 <= i < earlier.len() && earlier[i] == name;
                    assert(all[i] == name);
                }
                if all.contains(name) && name != last {
                    let i = choose|i: int| 0 <= i < all.len() && all[i] == name;
                    assert(earlier[i] == name);
                }
            }
            assert(earlier.contains(name) <==> rest.contains(name) && process.contains_key(name)
                && !explicit.contains_key(name));
        }
    }
}

/// Builds the variables for an agent process from the configured ones and from
/// the names of those to inherit. What is configured takes precedence. Returns
/// the variables, and the names of those that were inherited.
pub fn build_agent_env(explicit: &EnvVars, inherit_keys: &[String], process: &EnvVars) -> (built: (
    EnvVars,
    Vec<String>,
))
    ensures
        built.0@ == agent_vars(explicit@, texts(inherit_keys@), process@),
        texts(built.1@) == inherited_names(explicit@, texts(inherit_keys@), process@),
{
    let mut vars = EnvVars::new();
    let mut inherited: Vec<String> = Vec::new();
    let ghost names = texts(inherit_keys@);
    let entries = explicit.entries();
    let mut i: usize = 0;
    proof {
        assert(entries@.take(0) =~= Seq::empty());
        assert(vars@ =~= entries_map(entries@.take(0)).map_values(
            |v: Seq<char>| expanded(v, process@),
        ));
    }
    while i < entries.len()
        invariant
            0 <= i <= entries.len(),
            vars@ == entries_map(entries@.take(i as int)).map_values(
                |v: Seq<char>| expanded(v, process@),
            ),
        decreases entries.len() - i,
    {
        let value = expand_env(entries[i].1.as_str(), process);
        vars.insert(entries[i].0.clone(), value);
        proof {
            assert(entries@.take(i + 1).drop_last() =~= entries@.take(i as int));
            assert(vars@ =~= entries_map(entries@.take(i + 1)).map_values(
                |v: Seq<char>| expanded(v, process@),
            ));
        }
        i = i + 1;
    }
    proof {
        assert(entries@.take(i as int) =~= entries@);
        assert(names.take(0) =~= Seq::empty());
        assert(vars@ =~= agent_vars(explicit@, names.take(0), process@));
        assert(texts(inherited@) =~= inherited_names(explicit@, names.take(0), process@));
    }
    let mut j: usize = 0;
    while j < inherit_keys.len()
        invariant
            0 <= j <= inherit_keys.len(),
            names == texts(inherit_keys@),
            vars@ == agent_vars(explicit@, names.take(j as int), process@),
            texts(inherited@) == inherited_names(explicit@, names.take(j as int), process@),
        decreases inherit_keys.len() - j,
    {
        let ghost earlier = names.take(j as int);
        let ghost listed = names.take(j + 1);
        let ghost inherited_before = inherited@;
        let key = &inherit_keys[j];
        proof {
            lemma_inherited_names(explicit@, earlier, process@);
            assert(listed.drop_last() =~= earlier);
            assert(listed.last() == key@);
            assert forall|name: Seq<char>| #[trigger] listed.contains(name) <==> earlier.contains(
                name,
            ) || name == key@ by {
                if earlier.contains(name) {
                    let k = choose|k: int| 0 <= k < earlier.len() && earlier[k] == name;
                    assert(listed[k] == name);
                }
                if listed.contains(name) && name != key@ {
                    let k = choose|k: int| 0 <= k < listed.len() && listed[k] == name;
                    assert(earlier[k] == name);
                }
                assert(listed[j as int] == key@);
            }
        }
        if !vars.contains_key(key.as_str()) {
            match process.get(key.as_str()) {
                Some(value) => {
                    vars.insert(key.clone(), value.to_owned());
                    inherited.push(key.clone());
                    proof {
                        assert(texts(inherited@) =~= texts(inherited_before).push(key@));
                    }
                },
                None => {},
            }
        }
        proof {
            assert(inherited_names(explicit@, earlier, process@).contains(key@)
                <==> earlier.contains(key@) && process@.contains_key(key@)
                && !explicit@.contains_key(key@));
            assert(vars@ =~= agent_vars(explicit@, listed, process@));
        }
        j = j + 1;
    }
    proof {
        assert(names.take(j as int) =~= names);
    }
    (vars, inherited)
}

/// The kind of system that an agent process is started on.
#[derive(Debug, Clone, Copy)]
pub enum Platform {
    Unix,
    Windows,
    Other,
}

/// The value of the variable `name` of the process, or `default` where it is not
/// set.
pub open spec fn value_or(
    process: Map<Seq<char>, Seq<char>>,
    name: Seq<char>,
    default: Seq<char>,
) -> Seq<char> {
    if process.contains_key(name) {
        process[name]
    } else {
        default
    }
}

/// The variables `vars`, and the variable `name` of the process where it is set.
pub open spec fn with_process_var(
    vars: Map<Seq<char>, Seq<char>>,
    process: Map<Seq<char>, Seq<char>>,
    name: Seq<char>,
) -> Map<Seq<char>, Seq<char>> {
    if process.contains_key(name) {
        vars.insert(name, process[name])
    } else {
        vars
    }
}

/// The variables that every agent process gets.
pub open spec fn baseline_vars(
    platform: Platform,
    working_dir: Seq<char>,
    process: Map<Seq<char>, Seq<char>>,
) -> Map<Seq<char>, Seq<char>> {
    let common = map![
        "HOME"@ => value_or(process, "HOME"@, working_dir),
        "PATH"@ => value_or(process, "PATH"@, "/usr/local/bin:/usr/bin:/bin"@),
    ];
    match platform {
        Platform::Unix => common.insert("USER"@, value_or(process, "USER"@, "agent"@)),
        Platform::Windows => with_process_var(
            with_process_var(
                common.insert(
                    "USERPROFILE"@,
                    value_or(process, "USERPROFILE"@, working_dir),
                ).insert("USERNAME"@, value_or(process, "USERNAME"@, "agent"@)),
                process,
                "SystemRoot"@,
            ),
            process,
            "SystemDrive"@,
        ),
        Platform::Other => common,
    }
}

/// All variables of an agent process: the variables for the agent over those that
/// every agent process gets.
pub open spec fn child_vars(
    platform: Platform,
    working_dir: Seq<char>,
    agent: Map<Seq<char>, Seq<char>>,
    process: Map<Seq<char>, Seq<char>>,
) -> Map<Seq<char>, Seq<char>> {
    baseline_vars(platform, working_dir, process).union_prefer_right(agent)
}

/// Sets the variable `name` as the process has it, or to `default`.
fn set_or(vars: &mut EnvVars, process: &EnvVars, name: &str, default: &str)
    ensures
        final(vars)@ == old(vars)@.insert(name@, value_or(process@, name@, default@)),
{
    let value = match process.get(name) {
        Some(value) => value.to_owned(),
        None => default.to_owned(),
    };
    vars.insert(name.to_owned(), value);
}

/// Sets the variable `name` as the process has it, where it has it.
fn set_if_present(vars: &mut EnvVars, process: &EnvVars, name: &str)
    ensures
        final(vars)@ == with_process_var(old(vars)@, process@, name@),
{
    match process.get(name) {
        Some(value) => {
            vars.insert(name.to_owned(), value.to_owned());
        },
        None => {},
    }
}

/// Builds all variables that an agent process is started with. The home directory
/// is that of the process, so that the agent finds its credentials there; the
/// working directory stands in for it where the process has none.
pub fn child_environment(
    platform: Platform,
    working_dir: &str,
    agent_env: &EnvVars,
    process: &EnvVars,
) -> (vars: EnvVars)
    ensures
        vars@ == child_vars(platform, working_dir@, agent_env@, process@),
{
    let mut vars = EnvVars::new();
    set_or(&mut vars, process, "HOME", working_dir);
    set_or(&mut vars, process, "PATH", "/usr/local/bin:/usr/bin:/bin");
    match platform {
        Platform::Unix => {
            set_or(&mut vars, process, "USER", "agent");
        },
        Platform::Windows => {
            set_or(&mut vars, process, "USERPROFILE", working_dir);
            set_or(&mut vars, process, "USERNAME", "agent");
            set_if_present(&mut vars, process, "SystemRoot");
            set_if_present(&mut vars, process, "SystemDrive");
        },
        Platform::Other => {},
    }
    let ghost baseline = baseline_vars(platform, working_dir@, process@);
    assert(vars@ == baseline);
    let entries = agent_env.entries();
    let mut i: usize = 0;
    proof {
        assert(entries@.take(0) =~= Seq::empty());
        assert(vars@ =~= baseline.union_prefer_right(entries_map(entries@.take(0))));
    }
    while i < entries.len()
        invariant
            0 <= i <= entries.len(),
            vars@ == baseline.union_prefer_right(entries_map(entries@.take(i as int))),
        decreases entries.len() - i,
    {
        vars.insert(entries[i].0.clone(), entries[i].1.clone());
        proof {
            assert(entries@.take(i + 1).drop_last() =~= entries@.take(i as int));
            assert(vars@ =~= baseline.union_prefer_right(entries_map(entries@.take(i + 1))));
        }
        i = i + 1;
    }
    proof {
        assert(entries@.take(i as int) =~= entries@);
    }
    vars
}

/// Builds all variables that an agent process is started with, from the configured
/// ones, from the names of those to inherit and from those of the process. Returns
/// them, and the names of those that were inherited.
pub fn agent_environment(
    platform: Platform,
    working_dir: &str,
    explicit: &EnvVars,
    inherit_keys: &[String],
    process: &EnvVars,
) -> (built: (EnvVars, Vec<String>))
    ensures
        built.0@ == child_vars(
            platform,
            working_dir@,
            agent_vars(explicit@, texts(inherit_keys@), process@),
            process@,
        ),
        texts(built.1@) == inherited_names(explicit@, texts(inherit_keys@), process@),
{
    let (agent_env, inherited) = build_agent_env(explicit, inherit_keys, process);
    (child_environment(platform, working_dir, &agent_env, process), inherited)
}

/// Whether every agent process on a platform may get the variable `name`.
pub open spec fn is_baseline_name(platform: Platform, name: Seq<char>) -> bool {
    ||| name == "HOME"@
    ||| name == "PATH"@
    ||| platform is Unix && name == "USER"@
    ||| platform is Windows && (name == "USERPROFILE"@ || name == "USERNAME"@ || name
        == "SystemRoot"@ || name == "SystemDrive"@)
}

/// Whether the environment of an agent process depends on the variable `name` of
/// the process that starts it.
pub open spec fn is_read(
    platform: Platform,
    explicit: Map<Seq<char>, Seq<char>>,
    inherit: Seq<Seq<char>>,
    name: Seq<char>,
) -> bool {
    ||| is_baseline_name(platform, name)
    ||| inherit.contains(name)
    ||| exists|key: Seq<char>| #[trigger]
        explicit.contains_key(key) && is_reference(explicit[key]) && referenced_name(explicit[key])
            == name
}

/// A list holds a text exactly where a longer list does, or it is the added one.
proof fn lemma_texts_push(list: Seq<String>, added: String)
    ensures
        forall|name: Seq<char>| #[trigger]
            texts(list.push(added)).contains(name) <==> texts(list).contains(name) || name
                == added@,
{
    let longer = texts(list.push(added));
    assert(longer =~= texts(list).push(added@));
    assert forall|name: Seq<char>| #[trigger] longer.contains(name) <==> texts(list).contains(name)
        || name == added@ by {
        if texts(list).contains(name) {
            let i = choose|i: int| 0 <= i < list.len() && texts(list)[i] == name;
            assert(longer[i] == name);
        }
        if longer.contains(name) && name != added@ {
            let i = choose|i: int| 0 <= i < longer.len() && longer[i] == name;
            assert(texts(list)[i] == name);
        }
        assert(longer[list.len() as int] == added@);
    }
}

/// Adds a name to a list.
fn add_name(names: &mut Vec<String>, name: &str)
    ensures
        forall|n: Seq<char>| #[trigger]
            texts(final(names)@).contains(n) <==> texts(old(names)@).contains(n) || n == name@,
{
    let added = name.to_owned();
    proof {
        lemma_texts_push(names@, added);
    }
    names.push(added);
}

/// The names of the variables of the process on which the environment of an agent
/// process depends. A name may stand in the list more than once.
pub fn variables_to_read(platform: Platform, explicit: &EnvVars, inherit_keys: &[String]) -> (names:
    Vec<String>)
    ensures
        forall|name: Seq<char>| #[trigger]
            texts(names@).contains(name) <==> is_read(
                platform,
                explicit@,
                texts(inherit_keys@),
                name,
            ),
{
    let mut names: Vec<String> = Vec::new();
    proof {
        assert(texts(names@) =~= Seq::empty());
    }
    add_name(&mut names, "HOME");
    add_name(&mut names, "PATH");
    match platform {
        Platform::Unix => {
            add_name(&mut names, "USER");
        },
        Platform::Windows => {
            add_name(&mut names, "USERPROFILE");
            add_name(&mut names, "USERNAME");
            add_name(&mut names, "SystemRoot");
            add_name(&mut names, "SystemDrive");
        },
        Platform::Other => {},
    }
    assert(forall|name: Seq<char>| #[trigger]
        texts(names@).contains(name) <==> is_baseline_name(platform, name));
    let ghost listed = texts(inherit_keys@);
    let mut i: usize = 0;
    while i < inherit_keys.len()
        invariant
            0 <= i <= inherit_keys.len(),
            listed == texts(inherit_keys@),
            forall|name: Seq<char>| #[trigger]
                texts(names@).contains(name) <==> is_baseline_name(platform, name) || listed.take(
                    i as int,
                ).contains(name),
        decreases inherit_keys.len() - i,
    {
        add_name(&mut names, inherit_keys[i].as_str());
        proof {
            lemma_texts_push(inherit_keys@.take(i as int), inherit_keys@[i as int]);
            assert(texts(inherit_keys@.take(i as int)) =~= listed.take(i as int));
            assert(texts(inherit_keys@.take(i as int).push(inherit_keys@[i as int]))
                =~= listed.take(i + 1));
        }
        i = i + 1;
    }
    proof {
        assert(listed.take(i as int) =~= listed);
    }
    let entries = explicit.entries();
    proof {
        lemma_entries_map(entries@);
    }
    let mut j: usize = 0;
    while j < entries.len()
        invariant
            0 <= j <= entries.len(),
            listed == texts(inherit_keys@),
            forall|name: Seq<char>| #[trigger]
                texts(names@).contains(name) <==> {
                    ||| is_baseline_name(platform, name)
                    ||| listed.contains(name)
                    ||| exists|k: int|
                        0 <= k < j && is_reference((#[trigger] entries@[k]).1@) && referenced_name(
                            entries@[k].1@,
                        ) == name
                },
        decreases entries.len() - j,
    {
        match reference_name(entries[j].1.as_str()) {
            Some(name) => {
                add_name(&mut names, name.as_str());
            },
            None => {},
        }
        j = j + 1;
    }
    proof {
        let map = explicit@;
        assert forall|name: Seq<char>| #[trigger] texts(names@).contains(name) <==> is_read(
            platform,
            map,
            listed,
            name,
        ) by {
            if texts(names@).contains(name) && !is_baseline_name(platform, name)
                && !listed.contains(name) {
                let k = choose|k: int|
                    0 <= k < j && is_reference((#[trigger] entries@[k]).1@) && referenced_name(
                        entries@[k].1@,
                    ) == name;
                assert(map.contains_key(entries@[k].0@));
            }
            if is_read(platform, map, listed, name) && !is_baseline_name(platform, name)
                && !listed.contains(name) {
                let key = choose|key: Seq<char>| #[trigger]
                    map.contains_key(key) && is_reference(map[key]) && referenced_name(map[key])
                        == name;
                let k = choose|k: int| 0 <= k < entries@.len() && (#[trigger] entries@[k]).0@
                    == key;
                assert(entries@[k].1@ == map[key]);
            }
        }
    }
    names
}

/// A configured variable has its configured value, expanded, and is not inherited,
/// whether or not it is listed for inheriting.
pub proof fn explicit_takes_precedence(
    explicit: Map<Seq<char>, Seq<char>>,
    inherit: Seq<Seq<char>>,
    process: Map<Seq<char>, Seq<char>>,
    name: Seq<char>,
)
    requires
        explicit.contains_key(name),
    ensures
        agent_vars(explicit, inherit, process).contains_key(name),
        agent_vars(explicit, inherit, process)[name] == expanded(explicit[name], process),
        !inherited_names(explicit, inherit, process).contains(name),
{
    lemma_inherited_names(explicit, inherit, process);
}

/// The inherited names are those that are listed, that the process has and that
/// are not configured, each once; and each has the value that the process has.
pub proof fn inherited_come_from_the_process(
    explicit: Map<Seq<char>, Seq<char>>,
    inherit: Seq<Seq<char>>,
    process: Map<Seq<char>, Seq<char>>,
)
    ensures
        inherited_names(explicit, inherit, process).no_duplicates(),
        forall|name: Seq<char>| #[trigger]
            inherited_names(explicit, inherit, process).contains(name) <==> inherit.contains(name)
                && process.contains_key(name) && !explicit.contains_key(name),
        forall|name: Seq<char>| #[trigger]
            inherited_names(explicit, inherit, process).contains(name) ==> agent_vars(
                explicit,
                inherit,
                process,
            ).contains_key(name) && agent_vars(explicit, inherit, process)[name] == process[name],
{
    lemma_inherited_names(explicit, inherit, process);
}

/// The variables for an agent are the configured ones and the inherited ones.
pub proof fn agent_vars_are_explicit_or_inherited(
    explicit: Map<Seq<char>, Seq<char>>,
    inherit: Seq<Seq<char>>,
    process: Map<Seq<char>, Seq<char>>,
    name: Seq<char>,
)
    ensures
        agent_vars(explicit, inherit, process).contains_key(name) <==> explicit.contains_key(name)
            || inherited_names(explicit, inherit, process).contains(name),
{
    lemma_inherited_names(explicit, inherit, process);
}

/// An agent has no variables of its own exactly where none is configured and none is
/// inherited.
pub proof fn no_agent_vars_without_explicit_or_inherited(
    explicit: Map<Seq<char>, Seq<char>>,
    inherit: Seq<Seq<char>>,
    process: Map<Seq<char>, Seq<char>>,
)
    ensures
        agent_vars(explicit, inherit, process) == Map::<Seq<char>, Seq<char>>::empty() <==> explicit
            == Map::<Seq<char>, Seq<char>>::empty() && inherited_names(explicit, inherit, process)
            == Seq::<Seq<char>>::empty(),
{
    lemma_inherited_names(explicit, inherit, process);
    let all = agent_vars(explicit, inherit, process);
    let inherited = inherited_names(explicit, inherit, process);
    assert(forall|name: Seq<char>| #[trigger]
        all.contains_key(name) <==> explicit.contains_key(name) || inherited.contains(name));
    if all == Map::<Seq<char>, Seq<char>>::empty() {
        assert forall|name: Seq<char>| !explicit.contains_key(name) by {
            assert(!all.contains_key(name));
        }
        assert(explicit =~= Map::empty());
        if inherited.len() > 0 {
            assert(inherited.contains(inherited[0]));
            assert(all.contains_key(inherited[0]));
        }
        assert(inherited =~= Seq::empty());
    }
    if explicit == Map::<Seq<char>, Seq<char>>::empty() && inherited
        == Seq::<Seq<char>>::empty() {
        assert(all =~= Map::empty());
    }
}

/// No variable reaches an agent process but those that every agent process gets,
/// those that are configured and those that are listed for inheriting.
pub proof fn no_other_variable_reaches_the_agent(
    platform: Platform,
    working_dir: Seq<char>,
    explicit: Map<Seq<char>, Seq<char>>,
    inherit: Seq<Seq<char>>,
    process: Map<Seq<char>, Seq<char>>,
    name: Seq<char>,
)
    requires
        child_vars(
            platform,
            working_dir,
            agent_vars(explicit, inherit, process),
            process,
        ).contains_key(name),
    ensures
        is_baseline_name(platform, name) || explicit.contains_key(name) || inherit.contains(name),
{
}

/// An agent process has a home directory and a search path; each of its variables
/// is that of the agent where there is one, and else the one that every agent
/// process gets.
pub proof fn agent_vars_override_the_baseline(
    platform: Platform,
    working_dir: Seq<char>,
    agent: Map<Seq<char>, Seq<char>>,
    process: Map<Seq<char>, Seq<char>>,
)
    ensures
        child_vars(platform, working_dir, agent, process).contains_key("HOME"@),
        child_vars(platform, working_dir, agent, process).contains_key("PATH"@),
        forall|name: Seq<char>|
            agent.contains_key(name) ==> #[trigger] child_vars(
                platform,
                working_dir,
                agent,
                process,
            ).contains_key(name) && child_vars(platform, working_dir, agent, process)[name]
                == agent[name],
        forall|name: Seq<char>|
            !agent.contains_key(name) && baseline_vars(
                platform,
                working_dir,
                process,
            ).contains_key(name) ==> #[trigger] child_vars(
                platform,
                working_dir,
                agent,
                process,
            ).contains_key(name) && child_vars(platform, working_dir, agent, process)[name]
                == baseline_vars(platform, working_dir, process)[name],
{
}

/// The environment of an agent process depends on no other variables of the
/// process than those named by [`variables_to_read`].
pub proof fn other_variables_do_not_matter(
    platform: Platform,
    working_dir: Seq<char>,
    explicit: Map<Seq<char>, Seq<char>>,
    inherit: Seq<Seq<char>>,
    process: Map<Seq<char>, Seq<char>>,
    partial: Map<Seq<char>, Seq<char>>,
)
    requires
        forall|name: Seq<char>|
            is_read(platform, explicit, inherit, name) ==> (#[trigger] process.contains_key(name)
                <==> partial.contains_key(name)) && (process.contains_key(name) ==> process[name]
                == partial[name]),
    ensures
        agent_vars(explicit, inherit, process) == agent_vars(explicit, inherit, partial),
        inherited_names(explicit, inherit, process) == inherited_names(explicit, inherit, partial),
        child_vars(platform, working_dir, agent_vars(explicit, inherit, process), process)
            == child_vars(platform, working_dir, agent_vars(explicit, inherit, partial), partial),
{
    assert forall|name: Seq<char>| explicit.contains_key(name) implies expanded(
        #[trigger] explicit[name],
        process,
    ) == expanded(explicit[name], partial) by {
        if is_reference(explicit[name]) {
            assert(is_read(platform, explicit, inherit, referenced_name(explicit[name])));
            assert(process.contains_key(referenced_name(explicit[name]))
                <==> partial.contains_key(referenced_name(explicit[name])));
        }
    }
    assert forall|name: Seq<char>| inherit.contains(name) implies (#[trigger] process.contains_key(
        name,
    ) <==> partial.contains_key(name)) && (process.contains_key(name) ==> process[name]
        == partial[name]) by {
        assert(is_read(platform, explicit, inherit, name));
    }
    assert(agent_vars(explicit, inherit, process) =~= agent_vars(explicit, inherit, partial));
    lemma_inherited_depend_on_listed(explicit, inherit, process, partial);
    assert forall|name: Seq<char>| is_baseline_name(platform, name) implies (
    #[trigger] process.contains_key(name) <==> partial.contains_key(name)) && (
    process.contains_key(name) ==> process[name] == partial[name]) by {
        assert(is_read(platform, explicit, inherit, name));
    }
    assert(process.contains_key("HOME"@) == partial.contains_key("HOME"@));
    assert(process.contains_key("PATH"@) == partial.contains_key("PATH"@));
    if platform is Unix {
        assert(process.contains_key("USER"@) == partial.contains_key("USER"@));
    }
    if platform is Windows {
        assert(process.contains_key("USERPROFILE"@) == partial.contains_key("USERPROFILE"@));
        assert(process.contains_key("USERNAME"@) == partial.contains_key("USERNAME"@));
        assert(process.contains_key("SystemRoot"@) == partial.contains_key("SystemRoot"@));
        assert(process.contains_key("SystemDrive"@) == partial.contains_key("SystemDrive"@));
    }
    assert(baseline_vars(platform, working_dir, process) == baseline_vars(
        platform,
        working_dir,
        partial,
    ));
}

/// Which names are inherited depends on the listed variables only.
proof fn lemma_inherited_depend_on_listed(
    explicit: Map<Seq<char>, Seq<char>>,
    inherit: Seq<Seq<char>>,
    process: Map<Seq<char>, Seq<char>>,
    partial: Map<Seq<char>, Seq<char>>,
)
    requires
        forall|name: Seq<char>|
            inherit.contains(name) ==> (#[trigger] process.contains_key(name)
                <==> partial.contains_key(name)),
    ensures
        inherited_names(explicit, inherit, process) == inherited_names(explicit, inherit, partial),
    decreases inherit.len(),
{
    if inherit.len() > 0 {
        let rest = inherit.drop_last();
        assert forall|name: Seq<char>| rest.contains(name) implies (
        #[trigger] process.contains_key(name) <==> partial.contains_key(name)) by {
            let i = choose|i: int| 0 <= i < rest.len() && rest[i] == name;
            assert(inherit[i] == name);
        }
        lemma_inherited_depend_on_listed(explicit, rest, process, partial);
        assert(inherit[inherit.len() - 1] == inherit.last());
        assert(inherit.contains(inherit.last()));
        assert(process.contains_key(inherit.last()) == partial.contains_key(inherit.last()));
    }
}

/// The text that refers to the variable `name`: the name between `${` and `}`.
pub open spec fn reference_to(name: Seq<char>) -> Seq<char> {
    "${"@ + name + "}"@
}

/// A text of the form `${NAME}` is a reference to `NAME`, whatever the name holds, and
/// no other text is a reference.
pub proof fn references_are_names_in_braces(value: Seq<char>, name: Seq<char>)
    ensures
        is_reference(reference_to(name)),
        referenced_name(reference_to(name)) == name,
        is_reference(value) <==> value == reference_to(referenced_name(value)) && value.len() >= 3,
        (forall|n: Seq<char>| value != #[trigger] reference_to(n)) ==> !is_reference(value),
{
    reveal_strlit("${");
    reveal_strlit("}");
    let text = reference_to(name);
    assert("${"@.len() == 2 && "}"@.len() == 1 && "}"@[0] == '}');
    assert(text.len() == name.len() + 3);
    assert(text.take(2) =~= "${"@);
    assert(text.last() == '}');
    assert(text.subrange(2, text.len() - 1) =~= name);
    if is_reference(value) {
        let inner = referenced_name(value);
        assert(value =~= value.take(2) + inner + seq![value.last()]);
        assert("}"@ =~= seq!['}']);
        assert(value =~= reference_to(inner));
    }
    if value == reference_to(referenced_name(value)) && value.len() >= 3 {
        let inner = referenced_name(value);
        assert(reference_to(inner).take(2) =~= "${"@);
        assert(reference_to(inner).last() == '}');
    }
}

/// A reference comes to the value of the variable that it names, and to nothing where
/// the process does not have that variable.
pub proof fn references_come_to_the_value_of_the_variable(
    name: Seq<char>,
    process: Map<Seq<char>, Seq<char>>,
)
    ensures
        process.contains_key(name) ==> expanded("${"@ + name + "}"@, process) == process[name],
        !process.contains_key(name) ==> expanded("${"@ + name + "}"@, process) == Seq::<
            char,
        >::empty(),
{
    references_are_names_in_braces(Seq::empty(), name);
    assert("${"@ + name + "}"@ == reference_to(name));
}

/// A value that is not of the form `${NAME}` comes to itself.
pub proof fn other_values_come_to_themselves(
    value: Seq<char>,
    process: Map<Seq<char>, Seq<char>>,
)
    requires
        forall|name: Seq<char>| value != #[trigger] reference_to(name),
    ensures
        expanded(value, process) == value,
{
    references_are_names_in_braces(value, Seq::empty());
}

/// What an agent gets of its own: a configured variable as it is configured, with a
/// reference replaced by the value of the variable; and a variable that is not
/// configured exactly where it is listed for inheriting and the process has it, with
/// the value that it has there.
pub proof fn agents_get_what_is_configured_and_inherited(
    explicit: Map<Seq<char>, Seq<char>>,
    inherit: Seq<Seq<char>>,
    process: Map<Seq<char>, Seq<char>>,
    name: Seq<char>,
)
    ensures
        explicit.contains_key(name) ==> {
            let vars = agent_vars(explicit, inherit, process);
            &&& vars.contains_key(name)
            &&& forall|n: Seq<char>| #[trigger]
                reference_to(n) == explicit[name] ==> vars[name] == (if process.contains_key(n) {
                    process[n]
                } else {
                    Seq::empty()
                })
            &&& (forall|n: Seq<char>| #[trigger] reference_to(n) != explicit[name]) ==> vars[name]
                == explicit[name]
        },
        !explicit.contains_key(name) ==> {
            let vars = agent_vars(explicit, inherit, process);
            &&& vars.contains_key(name) <==> process.contains_key(name) && exists|i: int|
                0 <= i < inherit.len() && #[trigger] inherit[i] == name
            &&& vars.contains_key(name) ==> vars[name] == process[name]
        },
{
    if explicit.contains_key(name) {
        let value = explicit[name];
        assert forall|n: Seq<char>| #[trigger] reference_to(n) == value implies expanded(
            value,
            process,
        ) == (if process.contains_key(n) {
            process[n]
        } else {
            Seq::empty()
        }) by {
            references_come_to_the_value_of_the_variable(n, process);
        }
        if forall|n: Seq<char>| #[trigger] reference_to(n) != value {
            other_values_come_to_themselves(value, process);
        }
    }
}

/// One more name that is listed for inheriting comes last among the inherited names
/// where it is not configured, the process has it and it was not listed before; else it
/// changes nothing.
pub proof fn names_are_inherited_in_the_order_of_the_list(
    explicit: Map<Seq<char>, Seq<char>>,
    inherit: Seq<Seq<char>>,
    process: Map<Seq<char>, Seq<char>>,
    name: Seq<char>,
)
    ensures
        inherited_names(explicit, Seq::empty(), process) == Seq::<Seq<char>>::empty(),
        !explicit.contains_key(name) && process.contains_key(name) && !inherit.contains(name)
            ==> inherited_names(explicit, inherit.push(name), process) == inherited_names(
            explicit,
            inherit,
            process,
        ).push(name),
        explicit.contains_key(name) || !process.contains_key(name) || inherit.contains(name)
            ==> inherited_names(explicit, inherit.push(name), process) == inherited_names(
            explicit,
            inherit,
            process,
        ),
{
    lemma_inherited_names(explicit, inherit, process);
    assert(inherit.push(name).drop_last() =~= inherit);
    assert(inherited_names(explicit, inherit, process).contains(name) <==> inherit.contains(name)
        && process.contains_key(name) && !explicit.contains_key(name));
}

/// Whether a variable stands in `vars` with the value that the process has, or with
/// `default` where the process does not have it.
pub open spec fn stands_with_default(
    vars: Map<Seq<char>, Seq<char>>,
    process: Map<Seq<char>, Seq<char>>,
    name: Seq<char>,
    default: Seq<char>,
) -> bool {
    &&& vars.contains_key(name)
    &&& process.contains_key(name) ==> vars[name] == process[name]
    &&& !process.contains_key(name) ==> vars[name] == default
}

/// Whether a variable stands in `vars` exactly where the process has it, with the same
/// value.
pub open spec fn stands_as_in_process(
    vars: Map<Seq<char>, Seq<char>>,
    process: Map<Seq<char>, Seq<char>>,
    name: Seq<char>,
) -> bool {
    &&& vars.contains_key(name) <==> process.contains_key(name)
    &&& process.contains_key(name) ==> vars[name] == process[name]
}

/// What every agent process gets, on each platform, and that it gets nothing else.
pub proof fn every_agent_process_gets_the_baseline(
    platform: Platform,
    working_dir: Seq<char>,
    process: Map<Seq<char>, Seq<char>>,
    name: Seq<char>,
)
    ensures
        ({
            let vars = baseline_vars(platform, working_dir, process);
            &&& stands_with_default(vars, process, "HOME"@, working_dir)
            &&& stands_with_default(vars, process, "PATH"@, "/usr/local/bin:/usr/bin:/bin"@)
            &&& platform is Unix ==> {
                &&& stands_with_default(vars, process, "USER"@, "agent"@)
                &&& vars.contains_key(name) ==> name == "HOME"@ || name == "PATH"@ || name
                    == "USER"@
            }
            &&& platform is Windows ==> {
                &&& stands_with_default(vars, process, "USERPROFILE"@, working_dir)
                &&& stands_with_default(vars, process, "USERNAME"@, "agent"@)
                &&& stands_as_in_process(vars, process, "SystemRoot"@)
                &&& stands_as_in_process(vars, process, "SystemDrive"@)
                &&& vars.contains_key(name) ==> name == "HOME"@ || name == "PATH"@ || name
                    == "USERPROFILE"@ || name == "USERNAME"@ || name == "SystemRoot"@ || name
                    == "SystemDrive"@
            }
            &&& platform is Other ==> {
                vars.contains_key(name) ==> name == "HOME"@ || name == "PATH"@
            }
        }),
{
    reveal_strlit("HOME");
    reveal_strlit("PATH");
    reveal_strlit("USER");
    reveal_strlit("USERPROFILE");
    reveal_strlit("USERNAME");
    reveal_strlit("SystemRoot");
    reveal_strlit("SystemDrive");
    assert("HOME"@[0] == 'H' && "PATH"@[0] == 'P' && "USER"@[0] == 'U');
    assert("HOME"@.len() == 4 && "PATH"@.len() == 4 && "USER"@.len() == 4);
    assert("USERPROFILE"@[0] == 'U' && "SystemDrive"@[0] == 'S');
    assert("USERPROFILE"@.len() == 11 && "USERNAME"@.len() == 8);
    assert("SystemRoot"@.len() == 10 && "SystemDrive"@.len() == 11);
}

/// An agent process has the variables of the agent and those that every agent process
/// gets, and no others; where a variable is both, that of the agent counts.
pub proof fn the_variables_of_the_agent_come_first(
    platform: Platform,
    working_dir: Seq<char>,
    agent: Map<Seq<char>, Seq<char>>,
    process: Map<Seq<char>, Seq<char>>,
    name: Seq<char>,
)
    ensures
        ({
            let vars = child_vars(platform, working_dir, agent, process);
            let baseline = baseline_vars(platform, working_dir, process);
            &&& vars.contains_key(name) <==> agent.contains_key(name) || baseline.contains_key(name)
            &&& agent.contains_key(name) ==> vars[name] == agent[name]
            &&& !agent.contains_key(name) && baseline.contains_key(name) ==> vars[name]
                == baseline[name]
        }),
{
}

/// A variable of the process has to be read exactly where every agent process may get
/// it, where it is listed for inheriting, or where a configured value refers to it.
pub proof fn variables_are_read_where_they_are_needed(
    platform: Platform,
    explicit: Map<Seq<char>, Seq<char>>,
    inherit: Seq<Seq<char>>,
    name: Seq<char>,
)
    ensures
        is_read(platform, explicit, inherit, name) <==> {
            ||| name == "HOME"@ || name == "PATH"@
            ||| platform is Unix && name == "USER"@
            ||| platform is Windows && (name == "USERPROFILE"@ || name == "USERNAME"@)
            ||| platform is Windows && (name == "SystemRoot"@ || name == "SystemDrive"@)
            ||| exists|i: int| 0 <= i < inherit.len() && #[trigger] inherit[i] == name
            ||| exists|key: Seq<char>| #[trigger]
                explicit.contains_key(key) && explicit[key] == reference_to(name)
        },
{
    assert forall|key: Seq<char>| #[trigger] explicit.contains_key(key) implies (is_reference(
        explicit[key],
    ) && referenced_name(explicit[key]) == name <==> explicit[key] == reference_to(name)) by {
        references_are_names_in_braces(explicit[key], name);
    }
}

/// A list without repeated names sets each name in it to its value, and nothing else.
pub proof fn lists_set_what_they_name(entries: Seq<(String, String)>)
    requires
        forall|i: int, j: int|
            0 <= i < j < entries.len() ==> (#[trigger] entries[i]).0@ != (#[trigger] entries[j]).0@,
    ensures
        names_distinct(entries),
        forall|i: int|
            0 <= i < entries.len() ==> entries_map(entries).contains_key(
                (#[trigger] entries[i]).0@,
            ) && entries_map(entries)[entries[i].0@] == entries[i].1@,
        forall|name: Seq<char>| #[trigger]
            entries_map(entries).contains_key(name) ==> exists|i: int|
                0 <= i < entries.len() && (#[trigger] entries[i]).0@ == name,
{
    lemma_entries_map(entries);
}

/// The texts of a list stand one for one.
pub proof fn texts_stand_one_for_one(list: Seq<String>)
    ensures
        texts(list).len() == list.len(),
        forall|i: int| 0 <= i < list.len() ==> #[trigger] texts(list)[i] == list[i]@,
{
}

} // verus!
