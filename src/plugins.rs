//! Plugins that transform text before it is sent and after a reply comes
//! back, and the registry that runs them in order.

use crate::parser::copy_text;
use vstd::prelude::*;

pub mod sample_plugins;

verus! {

/// Who a plugin is.
#[derive(Debug, Clone, PartialEq, Eq)]
pub struct PluginMetadata {
    pub name: String,
    pub version: String,
    pub description: String,
    pub author: String,
}

/// What a plugin can do.
#[derive(Debug, Clone, Copy, PartialEq, Eq, Structural)]
pub enum PluginCapability {
    PreProcessor,
    PostProcessor,
    CodeFormatter,
    CustomCommand,
}

/// Why a plugin failed.
#[derive(Debug, Clone, PartialEq, Eq)]
pub enum PluginError {
    InitializationError(String),
    ProcessingError(String),
    NotFound(String),
}

/// A text transform that can be registered. Each implementor states what its
/// steps do through the spec functions; where it leaves `pre_ok` or `post_ok`
/// as they are, that step must hand its text back unchanged.
pub trait Plugin {
    /// What `metadata` returns. Unless an implementor says which, it is
    /// left open.
    open spec fn spec_metadata(&self) -> MetadataView {
        arbitrary()
    }

    /// What `capabilities` returns. Unless an implementor says which, it is
    /// left open.
    open spec fn spec_capabilities(&self) -> Seq<PluginCapability> {
        arbitrary()
    }

    /// Whether `initialize`, called on this plugin, may return `r`; unless
    /// an implementor narrows it, any result.
    open spec fn initialize_ok(&self, r: Result<(), PluginError>) -> bool {
        true
    }

    /// What holds of the plugin after `initialize` returned `r`; unless an
    /// implementor says more, nothing.
    open spec fn initialized(&self, r: Result<(), PluginError>) -> bool {
        true
    }

    /// Whether `pre_process` on `input` may give `out`.
    open spec fn pre_ok(&self, input: Seq<char>, out: Result<Seq<char>, PluginError>) -> bool {
        out == Ok::<Seq<char>, PluginError>(input)
    }

    /// Whether `post_process` on `response` may give `out`.
    open spec fn post_ok(&self, response: Seq<char>, out: Result<Seq<char>, PluginError>) -> bool {
        out == Ok::<Seq<char>, PluginError>(response)
    }

    fn metadata(&self) -> (r: PluginMetadata)
        ensures
            r@ == self.spec_metadata(),
    ;

    fn capabilities(&self) -> (r: Vec<PluginCapability>)
        ensures
            r@ == self.spec_capabilities(),
    ;

    /// Prepares the plugin; its metadata stays as it was.
    fn initialize(&mut self) -> (r: Result<(), PluginError>)
        ensures
            old(self).initialize_ok(r),
            final(self).initialized(r),
            final(self).spec_metadata() == old(self).spec_metadata(),
    ;

    fn pre_process(&self, input: &str) -> (r: Result<String, PluginError>)
        ensures
            self.pre_ok(input@, text_result(r)),
    ;

    fn post_process(&self, response: &str) -> (r: Result<String, PluginError>)
        ensures
            self.post_ok(response@, text_result(r)),
    ;
}

/// The mathematical value of a `PluginMetadata`.
pub struct MetadataView {
    pub name: Seq<char>,
    pub version: Seq<char>,
    pub description: Seq<char>,
    pub author: Seq<char>,
}

impl View for PluginMetadata {
    type V = MetadataView;

    open spec fn view(&self) -> MetadataView {
        MetadataView {
            name: self.name@,
            version: self.version@,
            description: self.description@,
            author: self.author@,
        }
    }
}

impl PluginMetadata {
    /// A field-by-field copy.
    pub fn copy(&self) -> (r: PluginMetadata)
        ensures
            r@ == self@,
    {
        PluginMetadata {
            name: copy_text(&self.name),
            version: copy_text(&self.version),
            description: copy_text(&self.description),
            author: copy_text(&self.author),
        }
    }
}

/// The text of a plugin error.
pub open spec fn plugin_error_text(e: PluginError) -> Seq<char> {
    match e {
        PluginError::InitializationError(m) => "Plugin initialization failed: "@ + m@,
        PluginError::ProcessingError(m) => "Plugin processing error: "@ + m@,
        PluginError::NotFound(m) => "Plugin not found: "@ + m@,
    }
}

impl PluginError {
    /// A readable description of the error.
    pub fn message(&self) -> (r: String)
        ensures
            r@ == plugin_error_text(*self),
    {
        match self {
            PluginError::InitializationError(m) => {
                "Plugin initialization failed: ".to_owned().concat(m.as_str())
            },
            PluginError::ProcessingError(m) => {
                "Plugin processing error: ".to_owned().concat(m.as_str())
            },
            PluginError::NotFound(m) => "Plugin not found: ".to_owned().concat(m.as_str()),
        }
    }
}

/// No two plugins share a name.
pub open spec fn unique_names(plugins: Seq<MetadataView>) -> bool {
    forall|i: int, j: int| 0 <= i < j < plugins.len() ==> plugins[i].name != plugins[j].name
}

/// Whether a plugin named `name` is among `plugins`.
pub open spec fn has_name(plugins: Seq<MetadataView>, name: Seq<char>) -> bool {
    exists|i: int| 0 <= i < plugins.len() && #[trigger] plugins[i].name == name
}

/// The position of the plugin named `name` among `plugins`, when there is one.
pub open spec fn name_position(plugins: Seq<MetadataView>, name: Seq<char>) -> int {
    choose|i: int| 0 <= i < plugins.len() && #[trigger] plugins[i].name == name
}

/// The metadata after registering a plugin described by `m`: one of the same
/// name is replaced in its place, else the new one joins at the end.
pub open spec fn after_register(plugins: Seq<MetadataView>, m: MetadataView) -> Seq<MetadataView> {
    if has_name(plugins, m.name) {
        plugins.update(name_position(plugins, m.name), m)
    } else {
        plugins.push(m)
    }
}

/// Where a plugin registered under `name` is stored: in the place of the
/// plugin of that name, if there is one, else at the end.
pub open spec fn register_slot(names: Seq<MetadataView>, name: Seq<char>) -> int {
    if has_name(names, name) {
        name_position(names, name)
    } else {
        names.len() as int
    }
}

/// The stored plugins `after` registering one under `name`, given those
/// `before`: one is put at `register_slot`, and every other plugin stays
/// where it was.
pub open spec fn stored_after_register(
    names: Seq<MetadataView>,
    before: Seq<Box<dyn Plugin>>,
    after: Seq<Box<dyn Plugin>>,
    name: Seq<char>,
) -> bool {
    &&& after.len() == (if has_name(names, name) {
        before.len()
    } else {
        before.len() + 1
    })
    &&& forall|k: int|
        0 <= k < before.len() && k != register_slot(names, name) ==> #[trigger] after[k]
            == before[k]
}

pub open spec fn metadata_view(v: Seq<PluginMetadata>) -> Seq<MetadataView> {
    v.map_values(|m: PluginMetadata| m@)
}

/// The value of a text result.
pub open spec fn text_result(r: Result<String, PluginError>) -> Result<Seq<char>, PluginError> {
    match r {
        Ok(s) => Ok(s@),
        Err(e) => Err(e),
    }
}

/// The outcomes of a chain of `n` plugins that stops at the first failure:
/// at most `n` outcomes, every one but the last a success, and fewer than `n`
/// only when the last is a failure.
pub open spec fn chain_shape(outcomes: Seq<Result<Seq<char>, PluginError>>, n: nat) -> bool {
    &&& outcomes.len() <= n
    &&& forall|j: int| 0 <= j < outcomes.len() - 1 ==> (#[trigger] outcomes[j]) is Ok
    &&& (outcomes.len() < n ==> outcomes.len() > 0 && outcomes.last() is Err)
}

/// The result of a chain started on `input` whose steps gave `outcomes`: the
/// text itself when there was no step, else the last outcome.
pub open spec fn chain_result(
    input: Seq<char>,
    outcomes: Seq<Result<Seq<char>, PluginError>>,
) -> Result<Seq<char>, PluginError> {
    if outcomes.len() == 0 {
        Ok(input)
    } else {
        outcomes.last()
    }
}

/// A run of a chain over `plugins`, in order, from `input`: plugin `j` was
/// handed `texts[j]` and gave `outcomes[j]` (through `post_process` when
/// `post` holds, else through `pre_process`); the first one was handed `input`
/// and each next one the text that the previous one gave.
pub open spec fn chain_trace(
    plugins: Seq<Box<dyn Plugin>>,
    post: bool,
    input: Seq<char>,
    texts: Seq<Seq<char>>,
    outcomes: Seq<Result<Seq<char>, PluginError>>,
) -> bool {
    &&& texts.len() == outcomes.len()
    &&& outcomes.len() <= plugins.len()
    &&& (texts.len() > 0 ==> texts[0] == input)
    &&& forall|j: int|
        #![trigger outcomes[j]]
        0 <= j < outcomes.len() ==> if post {
            (*plugins[j]).post_ok(texts[j], outcomes[j])
        } else {
            (*plugins[j]).pre_ok(texts[j], outcomes[j])
        }
    &&& forall|j: int| 0 <= j < outcomes.len() - 1 ==> #[trigger] outcomes[j] == Ok::<Seq<char>, PluginError>(texts[j + 1])
}

/// The registered plugins, each under its name, in order of registration.
pub struct PluginRegistry {
    entries: Vec<(PluginMetadata, Box<dyn Plugin>)>,
}

impl View for PluginRegistry {
    type V = Seq<MetadataView>;

    /// The metadata of the registered plugins, in order of registration.
    closed spec fn view(&self) -> Seq<MetadataView> {
        self.entries@.map_values(|e: (PluginMetadata, Box<dyn Plugin>)| e.0@)
    }
}

impl PluginRegistry {
    /// The registered plugins, in order of registration.
    pub closed spec fn plugins(&self) -> Seq<Box<dyn Plugin>> {
        self.entries@.map_values(|e: (PluginMetadata, Box<dyn Plugin>)| e.1)
    }

    /// Every name is registered once, and there is one plugin per entry.
    pub open spec fn wf(&self) -> bool {
        &&& unique_names(self@)
        &&& self.plugins().len() == self@.len()
    }

    /// A registry with no plugin.
    pub fn new() -> (r: PluginRegistry)
        ensures
            r@ == Seq::<MetadataView>::empty(),
            r.wf(),
    {
        let r = PluginRegistry { entries: Vec::new() };
        proof {
            assert(r@ =~= Seq::<MetadataView>::empty());
            assert(r.plugins() =~= Seq::<Box<dyn Plugin>>::empty());
        }
        r
    }

    /// The position of the plugin registered under `name`.
    fn position(&self, name: &String) -> (r: Option<usize>)
        requires
            self.wf(),
        ensures
            r matches Some(i) ==> i < self@.len() && self@[i as int].name == name@,
            r is None ==> !has_name(self@, name@),
    {
        let mut i: usize = 0;
        while i < self.entries.len()
            invariant
                0 <= i <= self.entries.len(),
                self@.len() == self.entries.len(),
                forall|j: int| 0 <= j < i ==> self@[j].name != name@,
            decreases self.entries.len() - i,
        {
            if self.entries[i].0.name == *name {
                return Some(i);
            }
            i = i + 1;
        }
        None
    }

    /// Puts the plugin of `entry`, described by its metadata, in the place of
    /// a plugin of the same name, or at the end.
    fn insert(&mut self, entry: (PluginMetadata, Box<dyn Plugin>))
        requires
            old(self).wf(),
        ensures
            final(self).wf(),
            final(self)@ == after_register(old(self)@, entry.0@),
            stored_after_register(old(self)@, old(self).plugins(), final(self).plugins(), entry.0@.name),
            final(self).plugins()[register_slot(old(self)@, entry.0@.name)] == entry.1,
    {
        let ghost m = entry.0@;
        let ghost p = entry.1;
        match self.position(&entry.0.name) {
            Some(i) => {
                self.entries.set(i, entry);
                proof {
                    assert(self.entries@ == old(self).entries@.update(i as int, entry));
                    assert(old(self).plugins().len() == old(self)@.len());
                    assert(self.plugins().len() == self.entries@.len());
                    assert forall|k: int| 0 <= k < self@.len() implies self@[k] == old(self)@.update(
                        i as int,
                        m,
                    )[k] by {
                        if k != i {
                            assert(self.entries@[k] == old(self).entries@[k]);
                        }
                    }
                    assert(self@ =~= old(self)@.update(i as int, m));
                    assert(self.plugins()[i as int] == p);
                    assert forall|k: int|
                        0 <= k < old(self).plugins().len() && k != i implies #[trigger] self.plugins()[k]
                        == old(self).plugins()[k] by {
                        assert(self.entries@[k] == old(self).entries@[k]);
                    }
                    assert(old(self)@[i as int].name == m.name);
                    assert(has_name(old(self)@, m.name));
                    let c = choose|c: int|
                        0 <= c < old(self)@.len() && #[trigger] old(self)@[c].name == m.name;
                    assert(c == i as int);
                    assert(self.plugins().len() == old(self).plugins().len());
                    assert(stored_after_register(old(self)@, old(self).plugins(), self.plugins(), m.name));
                }
            },
            None => {
                self.entries.push(entry);
                proof {
                    assert(self.entries@ == old(self).entries@.push(entry));
                    assert(self@.len() == old(self)@.len() + 1);
                    assert forall|k: int| 0 <= k < self@.len() implies self@[k] == old(self)@.push(
                        m,
                    )[k] by {
                        if k < old(self)@.len() {
                            assert(self.entries@[k] == old(self).entries@[k]);
                        }
                    }
                    assert(self@ =~= old(self)@.push(m));
                    assert(old(self).plugins().len() == old(self)@.len());
                    assert(self.plugins().len() == old(self).plugins().len() + 1);
                    assert(self.plugins()[old(self).plugins().len() as int] == p);
                    assert forall|k: int| 0 <= k < old(self).plugins().len() implies #[trigger] self.plugins()[k]
                        == old(self).plugins()[k] by {
                        assert(self.entries@[k] == old(self).entries@[k]);
                    }
                    assert forall|a: int, b: int| 0 <= a < b < self@.len() implies self@[a].name
                        != self@[b].name by {
                        if b == self@.len() - 1 {
                            assert(old(self)@[a] == self@[a]);
                        }
                    }
                    assert(stored_after_register(old(self)@, old(self).plugins(), self.plugins(), m.name));
                }
            },
        }
    }

    /// Initialises `plugin` and returns what its `initialize` returned. On
    /// success the plugin is registered under its own metadata, in the place
    /// of a plugin of the same name or at the end; on failure the registry
    /// stays as it was.
    pub fn register(&mut self, plugin: Box<dyn Plugin>) -> (r: Result<(), PluginError>)
        requires
            old(self).wf(),
        ensures
            final(self).wf(),
            (*plugin).initialize_ok(r),
            r is Err ==> final(self)@ == old(self)@ && final(self).plugins() == old(self).plugins(),
            r is Ok ==> final(self)@ == after_register(old(self)@, (*plugin).spec_metadata()),
            r is Ok ==> stored_after_register(
                old(self)@,
                old(self).plugins(),
                final(self).plugins(),
                (*plugin).spec_metadata().name,
            ),
            r is Ok ==> (*final(self).plugins()[register_slot(
                old(self)@,
                (*plugin).spec_metadata().name,
            )]).spec_metadata() == (*plugin).spec_metadata(),
            r is Ok ==> (*final(self).plugins()[register_slot(
                old(self)@,
                (*plugin).spec_metadata().name,
            )]).initialized(r),
    {
        let mut owned = plugin;
        let boxed: &mut Box<dyn Plugin> = &mut owned;
        let init = boxed.initialize();
        if init.is_err() {
            return init;
        }
        let boxed: &Box<dyn Plugin> = &owned;
        let metadata = boxed.metadata();
        let entry = (metadata, owned);
        self.insert(entry);
        init
    }

    /// The plugin registered under `name`.
    pub fn get(&self, name: &str) -> (r: Option<&Box<dyn Plugin>>)
        requires
            self.wf(),
        ensures
            r is Some <==> has_name(self@, name@),
            r matches Some(p) ==> *p == self.plugins()[name_position(self@, name@)],
    {
        let key = name.to_owned();
        match self.position(&key) {
            Some(i) => {
                proof {
                    let c = choose|c: int|
                        0 <= c < self@.len() && #[trigger] self@[c].name == name@;
                    assert(c == i as int);
                    assert(self.plugins()[i as int] == self.entries@[i as int].1);
                }
                let entry = &self.entries[i];
                Some(&entry.1)
            },
            None => None,
        }
    }

    /// The metadata of the registered plugins, in order of registration.
    pub fn list_plugins(&self) -> (r: Vec<PluginMetadata>)
        ensures
            metadata_view(r@) == self@,
    {
        let mut r: Vec<PluginMetadata> = Vec::new();
        let mut i: usize = 0;
        while i < self.entries.len()
            invariant
                0 <= i <= self.entries.len(),
                self@.len() == self.entries.len(),
                metadata_view(r@) == self@.take(i as int),
            decreases self.entries.len() - i,
        {
            let ghost before = r@;
            r.push(self.entries[i].0.copy());
            proof {
                assert(metadata_view(r@) =~= metadata_view(before).push(self@[i as int]));
                assert(self@.take(i as int + 1) =~= self@.take(i as int).push(self@[i as int]));
            }
            i = i + 1;
        }
        proof {
            assert(self@.take(i as int) =~= self@);
        }
        r
    }

    /// Runs every plugin's `pre_process` in order of registration: the first
    /// is handed `input`, each next one the text the previous one gave. The
    /// first failure is returned and no later plugin runs; with no failure the
    /// last text is returned, and with no plugin the input itself.
    pub fn pre_process_all(&self, input: &str) -> (r: Result<String, PluginError>)
        ensures
            exists|texts: Seq<Seq<char>>, outcomes: Seq<Result<Seq<char>, PluginError>>|
                chain_trace(self.plugins(), false, input@, texts, outcomes) && chain_shape(
                    outcomes,
                    self@.len(),
                ) && #[trigger] text_result(r) == chain_result(input@, outcomes),
    {
        self.run_chain(input, false)
    }

    /// Runs every plugin's `post_process` in order of registration: the first
    /// is handed `response`, each next one the text the previous one gave.
    /// The first failure is returned and no later plugin runs; with no failure
    /// the last text is returned, and with no plugin the response itself.
    pub fn post_process_all(&self, response: &str) -> (r: Result<String, PluginError>)
        ensures
            exists|texts: Seq<Seq<char>>, outcomes: Seq<Result<Seq<char>, PluginError>>|
                chain_trace(self.plugins(), true, response@, texts, outcomes) && chain_shape(
                    outcomes,
                    self@.len(),
                ) && #[trigger] text_result(r) == chain_result(response@, outcomes),
    {
        self.run_chain(response, true)
    }

    fn run_chain(&self, input: &str, post: bool) -> (r: Result<String, PluginError>)
        ensures
            exists|texts: Seq<Seq<char>>, outcomes: Seq<Result<Seq<char>, PluginError>>|
                chain_trace(self.plugins(), post, input@, texts, outcomes) && chain_shape(
                    outcomes,
                    self@.len(),
                ) && #[trigger] text_result(r) == chain_result(input@, outcomes),
    {
        let mut result = input.to_owned();
        let ghost mut texts: Seq<Seq<char>> = Seq::empty();
        let ghost mut outcomes: Seq<Result<Seq<char>, PluginError>> = Seq::empty();
        let mut i: usize = 0;
        while i < self.entries.len()
            invariant
                0 <= i <= self.entries.len(),
                self@.len() == self.entries.len(),
                self.plugins().len() == self.entries.len(),
                outcomes.len() == i,
                chain_trace(self.plugins(), post, input@, texts, outcomes),
                forall|j: int| 0 <= j < i ==> (#[trigger] outcomes[j]) is Ok,
                chain_result(input@, outcomes) == Ok::<Seq<char>, PluginError>(result@),
            decreases self.entries.len() - i,
        {
            let entry = &self.entries[i];
            let plugin: &Box<dyn Plugin> = &entry.1;
            let outcome = if post {
                plugin.post_process(result.as_str())
            } else {
                plugin.pre_process(result.as_str())
            };
            proof {
                assert(self.plugins()[i as int] == self.entries@[i as int].1);
                assert(post ==> (*self.plugins()[i as int]).post_ok(result@, text_result(outcome)));
                assert(!post ==> (*self.plugins()[i as int]).pre_ok(result@, text_result(outcome)));
                let old_texts = texts;
                let old_outcomes = outcomes;
                texts = texts.push(result@);
                outcomes = outcomes.push(text_result(outcome));
                assert forall|j: int| 0 <= j < outcomes.len() implies if post {
                    (*self.plugins()[j]).post_ok(texts[j], #[trigger] outcomes[j])
                } else {
                    (*self.plugins()[j]).pre_ok(texts[j], outcomes[j])
                } by {
                    if j < i {
                        assert(texts[j] == old_texts[j] && outcomes[j] == old_outcomes[j]);
                    }
                }
                assert forall|j: int| 0 <= j < outcomes.len() - 1 implies #[trigger] outcomes[j]
                    == Ok::<Seq<char>, PluginError>(texts[j + 1]) by {
                    if j < i - 1 {
                        assert(outcomes[j] == old_outcomes[j] && texts[j + 1] == old_texts[j + 1]);
                    } else {
                        assert(outcomes[j] == old_outcomes.last());
                    }
                }
            }
            match outcome {
                Ok(next) => {
                    result = next;
                },
                Err(e) => {
                    let r = Err(e);
                    proof {
                        assert(chain_shape(outcomes, self@.len()));
                        assert(chain_trace(self.plugins(), post, input@, texts, outcomes));
                        assert(text_result(r) == chain_result(input@, outcomes));
                    }
                    return r;
                },
            }
            i = i + 1;
        }
        proof {
            assert(chain_shape(outcomes, self@.len()));
        }
        Ok(result)
    }
}

impl Default for PluginRegistry {
    fn default() -> (r: PluginRegistry)
        ensures
            r@ == Seq::<MetadataView>::empty(),
            r.wf(),
    {
        PluginRegistry::new()
    }
}

} // verus!
