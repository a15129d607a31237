//! Command prediction and automation: the model catalogue, the prediction cache keyed by
//! command prefix, and the rules that fill and read it. Talking to a model server and the
//! event channel belong to the caller.
use vstd::prelude::*;
use crate::text::{chars_of, first_word, first_word_seq, is_blank, is_blank_seq, starts_with, str_eq};

verus! {

/// What the terminal asks of the assistant.
#[derive(Debug, Clone)]
pub enum AIEvent {
    CommandInput { session_id: String, command: String },
    CommandExecuted { session_id: String, command: String, exit_code: i32 },
    PredictionRequest { session_id: String, context: String },
    AutomationRequest { session_id: String, task: String },
}

/// A predicted command; `confidence` is in percent.
#[derive(Debug)]
pub struct CommandPrediction {
    pub command: String,
    pub confidence: u32,
    pub description: Option<String>,
    pub tags: Vec<String>,
}

/// A scripted task offered for a request; `confidence` is in percent.
#[derive(Debug)]
pub struct AutomationSuggestion {
    pub name: String,
    pub description: String,
    pub script: String,
    pub triggers: Vec<String>,
    pub confidence: u32,
}

#[derive(Debug, Clone, Copy, PartialEq, Eq, Structural)]
pub enum ModelProvider {
    Ollama,
    OpenAI,
    Anthropic,
    Local,
}

#[derive(Debug, Clone, Copy, PartialEq, Eq, Structural)]
pub enum ModelCapability {
    CommandPrediction,
    CodeGeneration,
    TextCompletion,
    CodeAnalysis,
}

#[derive(Debug)]
pub struct ModelInfo {
    pub name: String,
    pub provider: ModelProvider,
    pub capabilities: Vec<ModelCapability>,
    pub max_tokens: usize,
}

#[derive(Debug)]
pub struct ModelManager {
    pub active_model: String,
    pub available_models: Vec<ModelInfo>,
    pub context_window: usize,
}

/// The catalogue the engine starts with: llama2 active, codellama available, both on Ollama
/// with 4096 tokens.
pub open spec fn default_catalogue(r: ModelManager) -> bool {
    &&& r.active_model@ == "llama2"@
    &&& r.context_window == 4096
    &&& r.available_models@.len() == 2
    &&& r.available_models@[0].name@ == "llama2"@
    &&& r.available_models@[0].provider == ModelProvider::Ollama
    &&& r.available_models@[0].capabilities@ == seq![
        ModelCapability::CommandPrediction,
        ModelCapability::TextCompletion,
    ]
    &&& r.available_models@[0].max_tokens == 4096
    &&& r.available_models@[1].name@ == "codellama"@
    &&& r.available_models@[1].provider == ModelProvider::Ollama
    &&& r.available_models@[1].capabilities@ == seq![
        ModelCapability::CommandPrediction,
        ModelCapability::CodeGeneration,
        ModelCapability::CodeAnalysis,
    ]
    &&& r.available_models@[1].max_tokens == 4096
}

/// A prediction as plain values.
pub struct PredictionView {
    pub command: Seq<char>,
    pub confidence: u32,
    pub description: Option<Seq<char>>,
    pub tags: Seq<Seq<char>>,
}

pub open spec fn strs(v: Seq<String>) -> Seq<Seq<char>> {
    v.map_values(|s: String| s@)
}

pub open spec fn opt_str(o: Option<String>) -> Option<Seq<char>> {
    match o {
        Some(s) => Some(s@),
        None => None,
    }
}

impl View for CommandPrediction {
    type V = PredictionView;

    open spec fn view(&self) -> PredictionView {
        PredictionView {
            command: self.command@,
            confidence: self.confidence,
            description: opt_str(self.description),
            tags: strs(self.tags@),
        }
    }
}

pub open spec fn pviews(v: Seq<CommandPrediction>) -> Seq<PredictionView> {
    v.map_values(|p: CommandPrediction| p@)
}

pub open spec fn pv(command: Seq<char>, confidence: u32, description: Seq<char>, tags: Seq<Seq<char>>) -> PredictionView {
    PredictionView { command, confidence, description: Some(description), tags }
}

/// First index at or after `k` whose confidence is below `c` (or the length).
pub open spec fn first_below(s: Seq<PredictionView>, c: u32, k: int) -> int
    decreases s.len() - k,
{
    if 0 <= k < s.len() && s[k].confidence >= c {
        first_below(s, c, k + 1)
    } else {
        k
    }
}

/// `x` placed after every element of at least its confidence.
pub open spec fn insert_desc(s: Seq<PredictionView>, x: PredictionView) -> Seq<PredictionView> {
    let k = first_below(s, x.confidence, 0);
    s.take(k) + seq![x] + s.skip(k)
}

/// Stable sort by descending confidence.
pub open spec fn sort_desc(s: Seq<PredictionView>) -> Seq<PredictionView>
    decreases s.len(),
{
    if s.len() == 0 {
        s
    } else {
        insert_desc(sort_desc(s.drop_last()), s.last())
    }
}

/// The cache as plain values: entries of key and predictions, in insertion order.
pub type CacheView = Seq<(Seq<char>, Seq<PredictionView>)>;

/// No two entries share a key.
pub open spec fn keys_distinct(c: CacheView) -> bool {
    forall|i: int, j: int| 0 <= i < j < c.len() ==> (#[trigger] c[i]).0 != (#[trigger] c[j]).0
}

/// First entry at or after `i` whose key is `k` (or the length).
pub open spec fn find_key(c: CacheView, k: Seq<char>, i: int) -> int
    decreases c.len() - i,
{
    if 0 <= i < c.len() && c[i].0 != k {
        find_key(c, k, i + 1)
    } else if i < 0 {
        c.len() as int
    } else {
        i
    }
}

/// First entry at or after `i` whose key starts `input` (or the length).
pub open spec fn find_prefix(c: CacheView, input: Seq<char>, i: int) -> int
    decreases c.len() - i,
{
    if 0 <= i < c.len() && !c[i].0.is_prefix_of(input) {
        find_prefix(c, input, i + 1)
    } else if i < 0 {
        c.len() as int
    } else {
        i
    }
}

pub open spec fn cache_get(c: CacheView, k: Seq<char>) -> Option<Seq<PredictionView>> {
    let i = find_key(c, k, 0);
    if i < c.len() {
        Some(c[i].1)
    } else {
        None
    }
}

/// The entry for `k` replaced, or a new one appended.
pub open spec fn cache_insert(c: CacheView, k: Seq<char>, p: Seq<PredictionView>) -> CacheView {
    let i = find_key(c, k, 0);
    if i < c.len() {
        c.update(i, (k, p))
    } else {
        c.push((k, p))
    }
}

/// What is offered for an empty line.
pub open spec fn empty_line_predictions() -> Seq<PredictionView> {
    seq![
        pv("ls"@, 80, "List directory contents"@, seq!["file"@, "list"@]),
        pv("cd"@, 75, "Change directory"@, seq!["navigation"@]),
        pv("git status"@, 70, "Show git status"@, seq!["git"@]),
    ]
}

/// Predictions for `input`: a cached entry whose key starts the input, as stored; otherwise
/// the empty-line list or the entry for the first word, most confident first.
pub open spec fn predict_spec(c: CacheView, input: Seq<char>) -> Seq<PredictionView> {
    let p = find_prefix(c, input, 0);
    if p < c.len() {
        c[p].1
    } else if is_blank_seq(input) {
        sort_desc(empty_line_predictions())
    } else {
        match first_word_seq(input) {
            Some(w) => match cache_get(c, w) {
                Some(ps) => sort_desc(ps),
                None => seq![],
            },
            None => seq![],
        }
    }
}

/// What `get_predictions` reads: the entry for exactly `input`, else the first whose key
/// starts it, else nothing.
pub open spec fn lookup_spec(c: CacheView, input: Seq<char>) -> Seq<PredictionView> {
    match cache_get(c, input) {
        Some(ps) => ps,
        None => {
            let p = find_prefix(c, input, 0);
            if p < c.len() {
                c[p].1
            } else {
                seq![]
            }
        },
    }
}

/// Some prediction in `s` proposes `command`.
pub open spec fn proposes(s: Seq<PredictionView>, command: Seq<char>) -> bool {
    exists|i: int| 0 <= i < s.len() && (#[trigger] s[i]).command == command
}

/// A command that succeeded, learnt under its first word with a 60% confidence.
pub open spec fn learn_spec(c: CacheView, command: Seq<char>) -> CacheView {
    match first_word_seq(command) {
        None => c,
        Some(w) => {
            let existing = match cache_get(c, w) {
                Some(ps) => ps,
                None => seq![],
            };
            if proposes(existing, command) {
                cache_insert(c, w, existing)
            } else {
                cache_insert(
                    c,
                    w,
                    existing.push(
                        PredictionView {
                            command,
                            confidence: 60,
                            description: None,
                            tags: seq![w],
                        },
                    ),
                )
            }
        },
    }
}

/// The predictions cached when the engine starts.
pub open spec fn preloaded(c: CacheView) -> CacheView {
    let git = seq![
        pv("git status"@, 95, "Show working tree status"@, seq!["git"@, "status"@]),
        pv("git add ."@, 90, "Add all changes to staging area"@, seq!["git"@, "add"@]),
        pv("git commit -m"@, 85, "Commit changes with message"@, seq!["git"@, "commit"@]),
    ];
    let docker = seq![
        pv("docker ps"@, 95, "List running containers"@, seq!["docker"@, "list"@]),
        pv("docker build -t"@, 90, "Build Docker image"@, seq!["docker"@, "build"@]),
    ];
    cache_insert(cache_insert(c, "git"@, git), "docker"@, docker)
}

/// `p` occurs in `s` as a contiguous piece.
pub open spec fn contains_piece(s: Seq<char>, p: Seq<char>) -> bool {
    exists|i: int| 0 <= i <= s.len() - p.len() && #[trigger] piece_at(s, p, i)
}

/// `p` occurs in `s` starting at `i`.
pub open spec fn piece_at(s: Seq<char>, p: Seq<char>, i: int) -> bool {
    s.subrange(i, i + p.len()) == p
}

/// The fixed content of the two automations, told apart by name.
pub open spec fn automation_ok(a: AutomationSuggestion) -> bool {
    if a.name@ == "Deploy Application"@ {
        &&& a.description@ == "Automated deployment pipeline"@
        &&& a.script@ == "docker build -t app . && docker push registry/app:latest"@
        &&& strs(a.triggers@) == seq!["deploy"@, "push"@]
        &&& a.confidence == 85
    } else if a.name@ == "Run Tests"@ {
        &&& a.description@ == "Comprehensive test suite"@
        &&& a.script@ == "cargo test && npm test"@
        &&& strs(a.triggers@) == seq!["test"@, "check"@]
        &&& a.confidence == 90
    } else {
        false
    }
}

/// Names of the automations offered for a task description.
pub open spec fn automation_names(task: Seq<char>) -> Seq<Seq<char>> {
    let d: Seq<Seq<char>> = if contains_piece(task, "deploy"@) {
        seq!["Deploy Application"@]
    } else {
        seq![]
    };
    if contains_piece(task, "test"@) {
        d.push("Run Tests"@)
    } else {
        d
    }
}

fn clone_strings(v: &Vec<String>) -> (r: Vec<String>)
    ensures
        strs(r@) == strs(v@),
{
    let mut r: Vec<String> = Vec::new();
    let mut i: usize = 0;
    while i < v.len()
        invariant
            i <= v@.len(),
            strs(r@) == strs(v@).take(i as int),
        decreases v@.len() - i,
    {
        let ghost before = r@;
        r.push(v[i].clone());
        assert(r@ == before.push(v@[i as int]));
        assert(strs(r@) =~= strs(before).push(v@[i as int]@));
        assert(strs(v@).take(i as int + 1) =~= strs(v@).take(i as int).push(v@[i as int]@));
        i = i + 1;
    }
    assert(strs(v@).take(i as int) =~= strs(v@));
    r
}

fn clone_prediction(p: &CommandPrediction) -> (r: CommandPrediction)
    ensures
        r@ == p@,
{
    let description = match &p.description {
        Some(d) => Some(d.clone()),
        None => None,
    };
    CommandPrediction {
        command: p.command.clone(),
        confidence: p.confidence,
        description,
        tags: clone_strings(&p.tags),
    }
}

fn clone_predictions(v: &Vec<CommandPrediction>) -> (r: Vec<CommandPrediction>)
    ensures
        pviews(r@) == pviews(v@),
{
    let mut r: Vec<CommandPrediction> = Vec::new();
    let mut i: usize = 0;
    while i < v.len()
        invariant
            i <= v@.len(),
            pviews(r@) == pviews(v@).take(i as int),
        decreases v@.len() - i,
    {
        let ghost before = r@;
        let c = clone_prediction(&v[i]);
        r.push(c);
        assert(r@ == before.push(c));
        assert(pviews(r@) =~= pviews(before).push(v@[i as int]@));
        assert(pviews(v@).take(i as int + 1) =~= pviews(v@).take(i as int).push(v@[i as int]@));
        i = i + 1;
    }
    assert(pviews(v@).take(i as int) =~= pviews(v@));
    r
}

fn tags(first: &str, second: Option<&str>) -> (r: Vec<String>)
    ensures
        strs(r@) == match second {
            Some(b) => seq![first@, b@],
            None => seq![first@],
        },
{
    let mut r: Vec<String> = Vec::new();
    r.push(String::from_str(first));
    match second {
        Some(b) => {
            r.push(String::from_str(b));
            assert(strs(r@) =~= seq![first@, b@]);
        },
        None => {
            assert(strs(r@) =~= seq![first@]);
        },
    }
    r
}

fn prediction(command: &str, confidence: u32, description: &str, first_tag: &str, second_tag: Option<&str>) -> (r: CommandPrediction)
    ensures
        r@ == pv(
            command@,
            confidence,
            description@,
            match second_tag {
                Some(b) => seq![first_tag@, b@],
                None => seq![first_tag@],
            },
        ),
{
    CommandPrediction {
        command: String::from_str(command),
        confidence,
        description: Some(String::from_str(description)),
        tags: tags(first_tag, second_tag),
    }
}

fn first_below_exec(out: &Vec<CommandPrediction>, c: u32) -> (r: usize)
    ensures
        r == first_below(pviews(out@), c, 0),
        r <= out@.len(),
{
    let mut k: usize = 0;
    while k < out.len() && out[k].confidence >= c
        invariant
            0 <= k <= out@.len(),
            first_below(pviews(out@), c, 0) == first_below(pviews(out@), c, k as int),
        decreases out@.len() - k,
    {
        k = k + 1;
    }
    k
}

/// Most confident first, keeping the order of equally confident predictions.
pub fn sort_by_confidence(v: Vec<CommandPrediction>) -> (r: Vec<CommandPrediction>)
    ensures
        pviews(r@) == sort_desc(pviews(v@)),
{
    let ghost v0 = pviews(v@);
    let ghost n = v@.len();
    let mut v = v;
    let mut out: Vec<CommandPrediction> = Vec::new();
    let ghost mut i: int = 0;
    while v.len() > 0
        invariant
            0 <= i <= n,
            i + v@.len() == n,
            v0.len() == n,
            pviews(v@) == v0.skip(i),
            pviews(out@) == sort_desc(v0.take(i)),
        decreases v@.len(),
    {
        let ghost vx = v@;
        let x = v.remove(0);
        assert(pviews(vx)[0] == vx[0]@);
        assert(x@ == v0[i]);
        let ghost before = pviews(out@);
        assert(v0.take(i + 1).drop_last() =~= v0.take(i));
        assert(pviews(v@) =~= pviews(vx).skip(1));
        assert(pviews(vx).skip(1) =~= v0.skip(i + 1));
        let k = first_below_exec(&out, x.confidence);
        out.insert(k, x);
        assert(pviews(out@) =~= before.take(k as int) + seq![x@] + before.skip(k as int));
        proof {
            i = i + 1;
        }
    }
    assert(v0.take(i) =~= v0);
    out
}

/// Cached predictions, keyed by a command prefix or by `session:command`.
pub struct PredictionCache {
    entries: Vec<(String, Vec<CommandPrediction>)>,
}

impl View for PredictionCache {
    type V = CacheView;

    closed spec fn view(&self) -> CacheView {
        self.entries@.map_values(|e: (String, Vec<CommandPrediction>)| (e.0@, pviews(e.1@)))
    }
}

impl PredictionCache {
    #[verifier::type_invariant]
    spec fn keys_are_distinct(self) -> bool {
        keys_distinct(self@)
    }

    pub fn new() -> (r: PredictionCache)
        ensures
            r@ == Seq::<(Seq<char>, Seq<PredictionView>)>::empty(),
            keys_distinct(r@),
    {
        let r = PredictionCache { entries: Vec::new() };
        assert(r@ =~= Seq::<(Seq<char>, Seq<PredictionView>)>::empty());
        r
    }

    pub fn len(&self) -> (r: usize)
        ensures
            r == self@.len(),
            keys_distinct(self@),
    {
        proof {
            use_type_invariant(self);
        }
        self.entries.len()
    }

    fn index_of(&self, key: &str) -> (r: usize)
        ensures
            r == find_key(self@, key@, 0),
            r <= self@.len(),
    {
        let mut i: usize = 0;
        while i < self.entries.len()
            invariant
                i <= self@.len(),
                self@.len() == self.entries@.len(),
                find_key(self@, key@, 0) == find_key(self@, key@, i as int),
            decreases self.entries@.len() - i,
        {
            assert(self@[i as int].0 == self.entries@[i as int].0@);
            if str_eq(self.entries[i].0.as_str(), key) {
                return i;
            }
            i = i + 1;
        }
        i
    }

    fn prefix_index(&self, input: &str) -> (r: usize)
        ensures
            r == find_prefix(self@, input@, 0),
            r <= self@.len(),
    {
        let mut i: usize = 0;
        while i < self.entries.len()
            invariant
                i <= self@.len(),
                self@.len() == self.entries@.len(),
                find_prefix(self@, input@, 0) == find_prefix(self@, input@, i as int),
            decreases self.entries@.len() - i,
        {
            assert(self@[i as int].0 == self.entries@[i as int].0@);
            if starts_with(input, self.entries[i].0.as_str()) {
                return i;
            }
            i = i + 1;
        }
        i
    }

    fn predictions_at(&self, i: usize) -> (r: Vec<CommandPrediction>)
        requires
            i < self@.len(),
        ensures
            pviews(r@) == self@[i as int].1,
    {
        clone_predictions(&self.entries[i].1)
    }

    /// The predictions stored under exactly `key`.
    pub fn get(&self, key: &str) -> (r: Option<Vec<CommandPrediction>>)
        ensures
            match cache_get(self@, key@) {
                Some(ps) => r matches Some(v) && pviews(v@) == ps,
                None => r is None,
            },
    {
        let i = self.index_of(key);
        if i < self.entries.len() {
            Some(self.predictions_at(i))
        } else {
            None
        }
    }

    /// Stores `predictions` under `key`, replacing what was there; keys stay distinct.
    pub fn insert(&mut self, key: String, predictions: Vec<CommandPrediction>)
        ensures
            final(self)@ == cache_insert(old(self)@, key@, pviews(predictions@)),
            keys_distinct(final(self)@),
    {
        proof {
            use_type_invariant(&*self);
        }
        let i = self.index_of(key.as_str());
        let ghost k = key@;
        let ghost p = pviews(predictions@);
        let ghost c = self@;
        proof {
            lemma_find_key(c, k, 0);
        }
        let mut entries = Vec::new();
        std::mem::swap(&mut entries, &mut self.entries);
        let ghost e0 = entries@;
        if i < entries.len() {
            entries.set(i, (key, predictions));
        } else {
            entries.push((key, predictions));
        }
        let ghost n = entries@.map_values(|e: (String, Vec<CommandPrediction>)| (e.0@, pviews(e.1@)));
        proof {
            assert(c =~= e0.map_values(|e: (String, Vec<CommandPrediction>)| (e.0@, pviews(e.1@))));
            if i < c.len() {
                assert(n =~= c.update(i as int, (k, p)));
            } else {
                assert(n =~= c.push((k, p)));
            }
            assert forall|a: int, b: int| 0 <= a < b < n.len() implies (#[trigger] n[a]).0 != (#[trigger] n[b]).0 by {
                if i < c.len() {
                    if a != i && b != i {
                        assert(n[a] == c[a] && n[b] == c[b]);
                    } else if a == i {
                        assert(n[b] == c[b]);
                    } else {
                        assert(n[a] == c[a]);
                    }
                } else if b < c.len() {
                    assert(n[a] == c[a] && n[b] == c[b]);
                } else {
                    assert(n[a] == c[a]);
                }
            }
        }
        self.entries = entries;
        assert(self@ == n);
    }
}

impl ModelManager {
    /// The catalogue the engine starts with: llama2 active, codellama available.
    pub fn new() -> (r: ModelManager)
        ensures
            default_catalogue(r),
    {
        let mut models: Vec<ModelInfo> = Vec::new();
        models.push(
            ModelInfo {
                name: String::from_str("llama2"),
                provider: ModelProvider::Ollama,
                capabilities: vec![ModelCapability::CommandPrediction, ModelCapability::TextCompletion],
                max_tokens: 4096,
            },
        );
        models.push(
            ModelInfo {
                name: String::from_str("codellama"),
                provider: ModelProvider::Ollama,
                capabilities: vec![
                    ModelCapability::CommandPrediction,
                    ModelCapability::CodeGeneration,
                    ModelCapability::CodeAnalysis,
                ],
                max_tokens: 4096,
            },
        );
        ModelManager { active_model: String::from_str("llama2"), available_models: models, context_window: 4096 }
    }
}

/// The assistant's state: its models and its prediction cache.
pub struct AIEngine {
    pub model_manager: ModelManager,
    pub prediction_cache: PredictionCache,
}

impl AIEngine {
    /// A fresh engine with the default catalogue and nothing cached.
    pub fn new() -> (r: AIEngine)
        ensures
            r.prediction_cache@.len() == 0,
            default_catalogue(r.model_manager),
    {
        AIEngine { model_manager: ModelManager::new(), prediction_cache: PredictionCache::new() }
    }

    /// Caches the git and docker predictions.
    pub fn load_prediction_models(&mut self)
        ensures
            final(self).prediction_cache@ == preloaded(old(self).prediction_cache@),
    {
        let mut git: Vec<CommandPrediction> = Vec::new();
        git.push(prediction("git status", 95, "Show working tree status", "git", Some("status")));
        git.push(prediction("git add .", 90, "Add all changes to staging area", "git", Some("add")));
        git.push(prediction("git commit -m", 85, "Commit changes with message", "git", Some("commit")));
        let mut docker: Vec<CommandPrediction> = Vec::new();
        docker.push(prediction("docker ps", 95, "List running containers", "docker", Some("list")));
        docker.push(prediction("docker build -t", 90, "Build Docker image", "docker", Some("build")));
        assert(pviews(git@) =~= seq![
            pv("git status"@, 95, "Show working tree status"@, seq!["git"@, "status"@]),
            pv("git add ."@, 90, "Add all changes to staging area"@, seq!["git"@, "add"@]),
            pv("git commit -m"@, 85, "Commit changes with message"@, seq!["git"@, "commit"@]),
        ]);
        assert(pviews(docker@) =~= seq![
            pv("docker ps"@, 95, "List running containers"@, seq!["docker"@, "list"@]),
            pv("docker build -t"@, 90, "Build Docker image"@, seq!["docker"@, "build"@]),
        ]);
        self.prediction_cache.insert(String::from_str("git"), git);
        self.prediction_cache.insert(String::from_str("docker"), docker);
    }

    /// Predictions for what is typed so far.
    pub fn generate_predictions(&self, input: &str) -> (r: Vec<CommandPrediction>)
        ensures
            pviews(r@) == predict_spec(self.prediction_cache@, input@),
    {
        let p = self.prediction_cache.prefix_index(input);
        if p < self.prediction_cache.len() {
            return self.prediction_cache.predictions_at(p);
        }
        let mut base: Vec<CommandPrediction> = Vec::new();
        if is_blank(input) {
            base.push(prediction("ls", 80, "List directory contents", "file", Some("list")));
            base.push(prediction("cd", 75, "Change directory", "navigation", None));
            base.push(prediction("git status", 70, "Show git status", "git", None));
            assert(pviews(base@) =~= empty_line_predictions());
        } else {
            match first_word(input) {
                Some(w) => {
                    match self.prediction_cache.get(w.as_str()) {
                        Some(ps) => {
                            base = ps;
                        },
                        None => {
                            assert(pviews(base@) =~= seq![]);
                        },
                    }
                },
                None => {
                    assert(pviews(base@) =~= seq![]);
                },
            }
        }
        let r = sort_by_confidence(base);
        proof {
            if !is_blank_seq(input@) {
                if first_word_seq(input@) is None || cache_get(self.prediction_cache@, first_word_seq(input@)->0) is None {
                    assert(sort_desc(seq![]) == Seq::<PredictionView>::empty());
                }
            }
        }
        r
    }

    /// The cached predictions for `input`: an exact key first, then a key that starts it.
    pub fn get_predictions(&self, input: &str) -> (r: Vec<CommandPrediction>)
        ensures
            pviews(r@) == lookup_spec(self.prediction_cache@, input@),
    {
        match self.prediction_cache.get(input) {
            Some(ps) => ps,
            None => {
                let p = self.prediction_cache.prefix_index(input);
                if p < self.prediction_cache.len() {
                    self.prediction_cache.predictions_at(p)
                } else {
                    let r: Vec<CommandPrediction> = Vec::new();
                    assert(pviews(r@) =~= seq![]);
                    r
                }
            },
        }
    }

    /// Learns a command that succeeded under its first word.
    pub fn update_command_patterns(&mut self, command: &str)
        ensures
            final(self).prediction_cache@ == learn_spec(old(self).prediction_cache@, command@),
            final(self).model_manager == old(self).model_manager,
    {
        match first_word(command) {
            None => {},
            Some(w) => {
                let mut existing = match self.prediction_cache.get(w.as_str()) {
                    Some(ps) => ps,
                    None => {
                        let e: Vec<CommandPrediction> = Vec::new();
                        assert(pviews(e@) =~= seq![]);
                        e
                    },
                };
                let ghost ex = pviews(existing@);
                let mut found = false;
                let mut i: usize = 0;
                while i < existing.len()
                    invariant
                        i <= existing@.len(),
                        ex == pviews(existing@),
                        found == (exists|j: int| 0 <= j < i && (#[trigger] ex[j]).command == command@),
                    decreases existing@.len() - i,
                {
                    assert(ex[i as int] == existing@[i as int]@);
                    if str_eq(existing[i].command.as_str(), command) {
                        found = true;
                    }
                    i = i + 1;
                }
                if !found {
                    let mut tags: Vec<String> = Vec::new();
                    tags.push(w.clone());
                    let p = CommandPrediction {
                        command: String::from_str(command),
                        confidence: 60,
                        description: None,
                        tags,
                    };
                    assert(strs(p.tags@) =~= seq![w@]);
                    existing.push(p);
                    assert(pviews(existing@) =~= ex.push(p@));
                }
                self.prediction_cache.insert(w, existing);
            },
        }
    }

    /// Caches the predictions for a typed command under `session_id:command`.
    pub fn handle_command_input(&mut self, session_id: &str, command: &str)
        ensures
            final(self).prediction_cache@ == cache_insert(
                old(self).prediction_cache@,
                session_id@ + ":"@ + command@,
                predict_spec(old(self).prediction_cache@, command@),
            ),
    {
        let predictions = self.generate_predictions(command);
        let mut key = String::from_str(session_id);
        key.append(":");
        key.append(command);
        self.prediction_cache.insert(key, predictions);
    }

    /// Learns from a command that exited with status zero; other exits change nothing.
    pub fn handle_command_executed(&mut self, command: &str, exit_code: i32)
        ensures
            final(self).prediction_cache@ == (if exit_code == 0 {
                learn_spec(old(self).prediction_cache@, command@)
            } else {
                old(self).prediction_cache@
            }),
    {
        if exit_code == 0 {
            self.update_command_patterns(command);
        }
    }

    /// Applies one event; prediction and automation requests leave the engine as it is.
    pub fn handle_event(&mut self, event: &AIEvent)
        ensures
            final(self).prediction_cache@ == match event {
                AIEvent::CommandInput { session_id, command } => cache_insert(
                    old(self).prediction_cache@,
                    session_id@ + ":"@ + command@,
                    predict_spec(old(self).prediction_cache@, command@),
                ),
                AIEvent::CommandExecuted { command, exit_code, .. } => if *exit_code == 0 {
                    learn_spec(old(self).prediction_cache@, command@)
                } else {
                    old(self).prediction_cache@
                },
                _ => old(self).prediction_cache@,
            },
    {
        match event {
            AIEvent::CommandInput { session_id, command } => {
                self.handle_command_input(session_id.as_str(), command.as_str());
            },
            AIEvent::CommandExecuted { command, exit_code, .. } => {
                self.handle_command_executed(command.as_str(), *exit_code);
            },
            _ => {},
        }
    }
}

/// `p` occurs in `s`.
pub fn contains_str(s: &str, p: &str) -> (r: bool)
    ensures
        r == contains_piece(s@, p@),
{
    let sc = chars_of(s);
    let pc = chars_of(p);
    let ghost sv = s@;
    let ghost pw = p@;
    let n = sc.len();
    let m = pc.len();
    if m > n {
        assert forall|i: int| 0 <= i <= sv.len() - pw.len() implies !#[trigger] piece_at(sv, pw, i) by {}
        return false;
    }
    let mut i: usize = 0;
    while i <= n - m
        invariant
            n == sv.len(),
            m == pw.len(),
            sc@ == sv,
            pc@ == pw,
            sv == s@,
            pw == p@,
            m <= n,
            i <= n - m + 1,
            forall|j: int| 0 <= j < i ==> !#[trigger] piece_at(sv, pw, j),
        decreases n - m + 1 - i,
    {
        let mut k: usize = 0;
        let mut same = true;
        while k < m
            invariant
                n == sv.len(),
                m == pw.len(),
                sc@ == sv,
                pc@ == pw,
                sv == s@,
                pw == p@,
                i + m <= n,
                k <= m,
                same == (forall|t: int| 0 <= t < k ==> sv[i + t] == pw[t]),
            decreases m - k,
        {
            if sc[i + k] != pc[k] {
                same = false;
            }
            k = k + 1;
        }
        if same {
            assert(sv.subrange(i as int, i as int + pw.len()) =~= pw);
            assert(piece_at(sv, pw, i as int));
            return true;
        } else {
            assert(!piece_at(sv, pw, i as int)) by {
                if sv.subrange(i as int, i + m) == pw {
                    assert forall|t: int| 0 <= t < m implies sv[i + t] == pw[t] by {
                        assert(sv.subrange(i as int, i + m)[t] == sv[i + t]);
                    }
                }
            }
        }
        i = i + 1;
    }
    false
}

/// Scripted tasks for a request: deployment when it mentions "deploy", tests when it
/// mentions "test".
pub fn generate_automation_suggestions(task: &str) -> (r: Vec<AutomationSuggestion>)
    ensures
        r@.map_values(|a: AutomationSuggestion| a.name@) == automation_names(task@),
        forall|i: int| 0 <= i < r@.len() ==> automation_ok(#[trigger] r@[i]),
{
    let mut r: Vec<AutomationSuggestion> = Vec::new();
    proof {
        reveal_strlit("Deploy Application");
        reveal_strlit("Run Tests");
    }
    if contains_str(task, "deploy") {
        r.push(
            AutomationSuggestion {
                name: String::from_str("Deploy Application"),
                description: String::from_str("Automated deployment pipeline"),
                script: String::from_str("docker build -t app . && docker push registry/app:latest"),
                triggers: tags("deploy", Some("push")),
                confidence: 85,
            },
        );
        assert(automation_ok(r@[0]));
    }
    if contains_str(task, "test") {
        r.push(
            AutomationSuggestion {
                name: String::from_str("Run Tests"),
                description: String::from_str("Comprehensive test suite"),
                script: String::from_str("cargo test && npm test"),
                triggers: tags("test", Some("check")),
                confidence: 90,
            },
        );
        let ghost last = r@[r@.len() - 1];
        assert(last.name@ == "Run Tests"@);
        assert(last.name@ != "Deploy Application"@);
        assert(strs(last.triggers@) == seq!["test"@, "check"@]);
        assert(automation_ok(last));
    }
    assert(r@.map_values(|a: AutomationSuggestion| a.name@) =~= automation_names(task@));
    r
}


/// What is stored under a key is what a lookup of that key gives.
pub proof fn lemma_cache_get_after_insert(c: CacheView, k: Seq<char>, p: Seq<PredictionView>, other: Seq<char>)
    ensures
        cache_get(cache_insert(c, k, p), k) == Some(p),
        other != k ==> cache_get(cache_insert(c, k, p), other) == cache_get(c, other),
{
    lemma_find_key(c, k, 0);
    lemma_find_key(c, other, 0);
    let i = find_key(c, k, 0);
    let n = cache_insert(c, k, p);
    lemma_find_key(n, k, 0);
    lemma_find_key(n, other, 0);
    if i < c.len() {
        lemma_find_key_update(c, k, p, i, other, 0);
        lemma_find_key_update(c, k, p, i, k, 0);
    } else {
        lemma_find_key_push(c, (k, p), other, 0);
        lemma_find_key_push(c, (k, p), k, 0);
    }
}

proof fn lemma_find_key(c: CacheView, k: Seq<char>, i: int)
    requires
        0 <= i <= c.len(),
    ensures
        i <= find_key(c, k, i) <= c.len(),
        find_key(c, k, i) < c.len() ==> c[find_key(c, k, i)].0 == k,
        forall|j: int| i <= j < find_key(c, k, i) ==> c[j].0 != k,
    decreases c.len() - i,
{
    if i < c.len() && c[i].0 != k {
        lemma_find_key(c, k, i + 1);
    }
}

proof fn lemma_find_key_push(c: CacheView, e: (Seq<char>, Seq<PredictionView>), k: Seq<char>, i: int)
    requires
        0 <= i <= c.len(),
    ensures
        find_key(c, k, i) < c.len() ==> find_key(c.push(e), k, i) == find_key(c, k, i),
        find_key(c, k, i) == c.len() ==> find_key(c.push(e), k, i) == if e.0 == k {
            c.len() as int
        } else {
            c.len() + 1int
        },
    decreases c.len() - i,
{
    if i < c.len() && c[i].0 != k {
        lemma_find_key_push(c, e, k, i + 1);
    } else if i == c.len() && e.0 != k {
        assert(find_key(c.push(e), k, i + 1) == i + 1);
    }
}

proof fn lemma_find_key_update(c: CacheView, k: Seq<char>, p: Seq<PredictionView>, idx: int, other: Seq<char>, i: int)
    requires
        0 <= i <= c.len(),
        0 <= idx < c.len(),
        c[idx].0 == k,
        forall|j: int| 0 <= j < idx ==> c[j].0 != k,
    ensures
        find_key(c.update(idx, (k, p)), other, i) == find_key(c, other, i),
    decreases c.len() - i,
{
    if i < c.len() && c.update(idx, (k, p))[i].0 != other {
        lemma_find_key_update(c, k, p, idx, other, i + 1);
    }
}

/// A command that succeeded is afterwards among the predictions for its first word.
pub proof fn lemma_learned_command_is_proposed(c: CacheView, command: Seq<char>)
    requires
        first_word_seq(command) is Some,
    ensures
        cache_get(learn_spec(c, command), first_word_seq(command)->0) matches Some(ps) && proposes(ps, command),
{
    let w = first_word_seq(command)->0;
    let existing = match cache_get(c, w) {
        Some(ps) => ps,
        None => seq![],
    };
    if proposes(existing, command) {
        lemma_cache_get_after_insert(c, w, existing, w);
    } else {
        let x = PredictionView { command, confidence: 60, description: None, tags: seq![w] };
        lemma_cache_get_after_insert(c, w, existing.push(x), w);
        assert(existing.push(x)[existing.len() as int] == x);
    }
}


proof fn lemma_first_below(s: Seq<PredictionView>, c: u32, k: int)
    requires
        0 <= k <= s.len(),
    ensures
        k <= first_below(s, c, k) <= s.len(),
        forall|j: int| k <= j < first_below(s, c, k) ==> (#[trigger] s[j]).confidence >= c,
        first_below(s, c, k) < s.len() ==> s[first_below(s, c, k)].confidence < c,
    decreases s.len() - k,
{
    if k < s.len() && s[k].confidence >= c {
        lemma_first_below(s, c, k + 1);
    }
}

pub open spec fn most_confident_first(s: Seq<PredictionView>) -> bool {
    forall|i: int, j: int| 0 <= i < j < s.len() ==> s[i].confidence >= s[j].confidence
}

/// Sorted predictions come most confident first and are exactly the ones given.
pub proof fn lemma_sort_desc_sorted_permutation(s: Seq<PredictionView>)
    ensures
        most_confident_first(sort_desc(s)),
        sort_desc(s).to_multiset() == s.to_multiset(),
    decreases s.len(),
{
    broadcast use vstd::seq_lib::to_multiset_build, vstd::seq_lib::to_multiset_insert;

    if s.len() > 0 {
        let p = sort_desc(s.drop_last());
        lemma_sort_desc_sorted_permutation(s.drop_last());
        let x = s.last();
        let k = first_below(p, x.confidence, 0);
        lemma_first_below(p, x.confidence, 0);
        let r = p.take(k) + seq![x] + p.skip(k);
        assert(r =~= p.insert(k, x));
        assert(s =~= s.drop_last().push(x));
        assert forall|i: int, j: int| 0 <= i < j < r.len() implies r[i].confidence >= r[j].confidence by {
            if j < k {
                assert(r[i] == p[i] && r[j] == p[j]);
            } else if j == k {
                assert(r[i] == p[i] && r[j] == x);
            } else if i < k {
                assert(r[i] == p[i] && r[j] == p[j - 1]);
            } else if i == k {
                assert(r[i] == x && r[j] == p[j - 1]);
                assert(p[k].confidence < x.confidence);
            } else {
                assert(r[i] == p[i - 1] && r[j] == p[j - 1]);
            }
        }
    }
}

/// Predictions not taken straight from a prefix entry come most confident first.
pub proof fn lemma_predictions_sorted(c: CacheView, input: Seq<char>)
    requires
        find_prefix(c, input, 0) >= c.len(),
    ensures
        most_confident_first(predict_spec(c, input)),
{
    if is_blank_seq(input) {
        lemma_sort_desc_sorted_permutation(empty_line_predictions());
    } else {
        match first_word_seq(input) {
            Some(w) => match cache_get(c, w) {
                Some(ps) => lemma_sort_desc_sorted_permutation(ps),
                None => {},
            },
            None => {},
        }
    }
}

} // verus!
