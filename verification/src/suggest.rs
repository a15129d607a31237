//! Command suggestions: static rules, the Ollama reply format, rate limiting and ranking.
//!
//! Confidences are whole percentages (`95` stands for 0.95).
use vstd::prelude::*;
use crate::config_simple::{AIConfig, Config};
use crate::text::{
    chars_of, eq_ignore_ascii_case, eq_ignore_ascii_case_seq, first_word, first_word_seq,
    lowercase_of, numeric_char, char_is_numeric, starts_with, str_eq, string_of, to_lowercase,
    trim, trim_bounds, trim_end_char, trim_end_char_seq, trim_seq,
};

verus! {

/// One suggested command line.
#[derive(Debug, Clone)]
pub struct Suggestion {
    pub command: String,
    /// Confidence as a whole percentage, 0 to 100.
    pub confidence: u32,
    pub source: String,
}

/// A suggestion as mathematical values.
pub struct SuggestionView {
    pub command: Seq<char>,
    pub confidence: u32,
    pub source: Seq<char>,
}

impl View for Suggestion {
    type V = SuggestionView;

    open spec fn view(&self) -> SuggestionView {
        SuggestionView { command: self.command@, confidence: self.confidence, source: self.source@ }
    }
}

pub open spec fn sv(command: Seq<char>, confidence: u32, source: Seq<char>) -> SuggestionView {
    SuggestionView { command, confidence, source }
}

pub open spec fn views(v: Seq<Suggestion>) -> Seq<SuggestionView> {
    v.map_values(|s: Suggestion| s@)
}

/// The static rules, one entry per command: rule prefix, command, confidence.
pub open spec fn rule_table() -> Seq<(Seq<char>, Seq<char>, u32)> {
    seq![
        ("git"@, "git status"@, 95u32),
        ("git"@, "git add ."@, 90u32),
        ("git"@, "git commit -m \"\""@, 85u32),
        ("git"@, "git push"@, 80u32),
        ("git"@, "git pull"@, 80u32),
        ("docker"@, "docker ps"@, 95u32),
        ("docker"@, "docker compose up -d"@, 90u32),
        ("docker"@, "docker build -t app ."@, 85u32),
        ("cargo"@, "cargo build"@, 95u32),
        ("cargo"@, "cargo test"@, 90u32),
        ("cargo"@, "cargo run"@, 85u32),
        ("cargo"@, "cargo clippy"@, 80u32),
    ]
}

/// A rule applies when the lowercased query starts with its prefix or its first word is it.
pub open spec fn rule_applies(prefix: Seq<char>, q: Seq<char>, first: Seq<char>) -> bool {
    prefix.is_prefix_of(q) || first == prefix
}

/// A rule's command is offered when it starts with the trimmed query (as typed).
pub open spec fn entry_kept(
    e: (Seq<char>, Seq<char>, u32),
    q: Seq<char>,
    first: Seq<char>,
    t: Seq<char>,
) -> bool {
    rule_applies(e.0, q, first) && (t.is_prefix_of(e.1) || t.len() == 0)
}

/// The offered commands of `entries`, in table order.
pub open spec fn hits(
    entries: Seq<(Seq<char>, Seq<char>, u32)>,
    q: Seq<char>,
    first: Seq<char>,
    t: Seq<char>,
) -> Seq<SuggestionView>
    decreases entries.len(),
{
    if entries.len() == 0 {
        seq![]
    } else {
        let e = entries.last();
        hits(entries.drop_last(), q, first, t) + if entry_kept(e, q, first, t) {
            seq![sv(e.1, e.2, "static"@)]
        } else {
            seq![]
        }
    }
}

/// The suggestions the static rules give for a query that reads `t` trimmed and `q`
/// trimmed and lowercased.
pub open spec fn rules_spec(t: Seq<char>, q: Seq<char>) -> Seq<SuggestionView> {
    if q.len() == 0 {
        seq![
            sv("ls -la"@, 70, "static"@),
            sv("pwd"@, 65, "static"@),
            sv("git status"@, 60, "static"@),
        ]
    } else {
        let first = match first_word_seq(q) {
            Some(w) => w,
            None => q,
        };
        let h = hits(rule_table(), q, first, t);
        if h.len() == 0 {
            seq![sv(t, 50, "static"@)]
        } else {
            h
        }
    }
}

/// The suggestions the static rules give for a query.
pub open spec fn static_spec(query: Seq<char>) -> Seq<SuggestionView> {
    rules_spec(trim_seq(query), lowercase_of(trim_seq(query)))
}

/// Some suggestion in `s` already has command `c`.
pub open spec fn has_command(s: Seq<SuggestionView>, c: Seq<char>) -> bool {
    exists|i: int| 0 <= i < s.len() && (#[trigger] s[i]).command == c
}

/// `out` followed by each suggestion of `extra` whose command is not there yet.
pub open spec fn merge_spec(out: Seq<SuggestionView>, extra: Seq<SuggestionView>) -> Seq<
    SuggestionView,
>
    decreases extra.len(),
{
    if extra.len() == 0 {
        out
    } else {
        let m = merge_spec(out, extra.drop_last());
        if has_command(m, extra.last().command) {
            m
        } else {
            m.push(extra.last())
        }
    }
}

/// First index at or after `k` whose confidence is below `c` (or the length).
pub open spec fn first_below(s: Seq<SuggestionView>, c: u32, k: int) -> int
    decreases s.len() - k,
{
    if 0 <= k < s.len() && s[k].confidence >= c {
        first_below(s, c, k + 1)
    } else {
        k
    }
}

/// `x` placed after every element of at least its confidence.
pub open spec fn insert_desc(s: Seq<SuggestionView>, x: SuggestionView) -> Seq<SuggestionView> {
    let k = first_below(s, x.confidence, 0);
    s.take(k) + seq![x] + s.skip(k)
}

/// Stable sort by descending confidence (what `sort_by` with a reversed comparison gives).
pub open spec fn sort_desc(s: Seq<SuggestionView>) -> Seq<SuggestionView>
    decreases s.len(),
{
    if s.len() == 0 {
        s
    } else {
        insert_desc(sort_desc(s.drop_last()), s.last())
    }
}

/// At most ten suggestions, most confident first.
pub open spec fn rank_spec(s: Seq<SuggestionView>) -> Seq<SuggestionView> {
    let r = sort_desc(s);
    if r.len() > 10 {
        r.take(10)
    } else {
        r
    }
}

pub open spec fn sorted_desc(s: Seq<SuggestionView>) -> bool {
    forall|i: int, j: int| 0 <= i < j < s.len() ==> s[i].confidence >= s[j].confidence
}

/// The AI backend is consulted for enabled, auto-suggesting Ollama configurations.
pub open spec fn wants_ai(ai: AIConfig) -> bool {
    ai.enabled && ai.auto_suggestions && eq_ignore_ascii_case_seq(ai.provider@, "ollama"@)
}

/// What happens to the AI backend for one request.
#[derive(Debug, Clone, Copy, PartialEq, Eq, Structural)]
pub enum SuggestStage {
    /// The configuration does not ask for AI suggestions.
    NoAi,
    /// AI suggestions are wanted but the previous request was too recent.
    RateLimited,
    /// The backend is to be asked.
    QueryAi,
}

/// The final suggestion list for a query, given the stage and the backend's answer
/// (`None` when it was not asked or failed).
pub open spec fn suggest_spec(
    query: Seq<char>,
    stage: SuggestStage,
    ai: Option<Seq<SuggestionView>>,
) -> Seq<SuggestionView> {
    let st = static_spec(query);
    match stage {
        SuggestStage::RateLimited => st,
        SuggestStage::NoAi => rank_spec(st),
        SuggestStage::QueryAi => rank_spec(
            match ai {
                Some(a) => merge_spec(st, a),
                None => st,
            },
        ),
    }
}

/// Minimum spacing between two AI requests, in nanoseconds (six seconds).
pub open spec fn rate_window_ns() -> u64 {
    6_000_000_000u64
}

/// A request at `now` is allowed when none was allowed before, or the last allowed one is
/// at least six seconds old (a clock that went back counts as no time passed).
pub open spec fn rate_allows(last: Option<u64>, now: u64) -> bool {
    match last {
        Some(t) => !(if now >= t { now - t } else { 0 } < rate_window_ns()),
        None => true,
    }
}

/// What the limiter remembers after being asked at `now`: the instant, if it allowed it.
pub open spec fn rate_step(last: Option<u64>, now: u64) -> Option<u64> {
    if rate_allows(last, now) {
        Some(now)
    } else {
        last
    }
}

/// What a limiter that remembered `init` remembers after being asked at `ts[0]`, ...,
/// `ts[n - 1]` in turn.
pub open spec fn limiter_after(ts: Seq<u64>, init: Option<u64>, n: int) -> Option<u64>
    decreases n,
{
    if n <= 0 {
        init
    } else {
        rate_step(limiter_after(ts, init, n - 1), ts[n - 1])
    }
}

/// Whether the `i`-th of those requests is allowed.
pub open spec fn granted(ts: Seq<u64>, init: Option<u64>, i: int) -> bool {
    rate_allows(limiter_after(ts, init, i), ts[i])
}

/// How many of the first `n` requests are allowed and made at an instant in
/// `[t, t + 60 s)`.
pub open spec fn granted_in_window(ts: Seq<u64>, init: Option<u64>, t: int, n: int) -> nat
    decreases n,
{
    if n <= 0 {
        0
    } else {
        granted_in_window(ts, init, t, n - 1) + if granted(ts, init, n - 1) && t <= ts[n - 1] < t
            + 60_000_000_000 {
            1nat
        } else {
            0nat
        }
    }
}

/// Remembers when the AI backend was last asked.
#[derive(Debug, Clone, Copy)]
pub struct RateLimiter {
    pub last_request_ns: Option<u64>,
}

/// A line of a reply counts as numbering while it starts with these.
pub open spec fn numbering_char(c: char) -> bool {
    numeric_char(c) || c == '.' || c == '-' || c == ')'
}

pub open spec fn skip_numbering(s: Seq<char>, i: int) -> int
    decreases s.len() - i,
{
    if 0 <= i < s.len() && numbering_char(s[i]) {
        skip_numbering(s, i + 1)
    } else {
        i
    }
}

/// The command a reply line holds, if any: blank lines and `#` comments hold none; leading
/// numbering is dropped.
pub open spec fn line_command(p: Seq<char>) -> Option<Seq<char>> {
    let line = trim_seq(p);
    if line.len() == 0 || line[0] == '#' {
        None
    } else {
        let c = trim_seq(line.subrange(skip_numbering(line, 0), line.len() as int));
        if c.len() == 0 {
            None
        } else {
            Some(c)
        }
    }
}

/// The pieces of `s` between newline characters.
pub open spec fn pieces(s: Seq<char>) -> Seq<Seq<char>>
    decreases s.len(),
{
    if s.len() == 0 {
        seq![seq![]]
    } else {
        let p = pieces(s.drop_last());
        if s.last() == '\n' {
            p.push(seq![])
        } else {
            p.update(p.len() - 1, p.last().push(s.last()))
        }
    }
}

/// The commands held by a list of lines, in order.
pub open spec fn commands(ps: Seq<Seq<char>>) -> Seq<Seq<char>>
    decreases ps.len(),
{
    if ps.len() == 0 {
        seq![]
    } else {
        commands(ps.drop_last()) + match line_command(ps.last()) {
            Some(c) => seq![c],
            None => seq![],
        }
    }
}

/// The suggestions an Ollama reply text yields.
pub open spec fn ollama_spec(text: Seq<char>) -> Seq<SuggestionView> {
    commands(pieces(text)).map_values(|c: Seq<char>| sv(c, 75, "ollama"@))
}

/// The prompt sent to the model for a query.
pub open spec fn prompt_spec(query: Seq<char>) -> Seq<char> {
    "You are a shell assistant. Given this user intent or partial command: \""@ + query
        + "\" Reply with up to 3 shell commands only, one per line, no numbering or explanation."@
}

fn static_entry(prefix: &str, command: &str, confidence: u32) -> (r: (String, String, u32))
    ensures
        r.0@ == prefix@,
        r.1@ == command@,
        r.2 == confidence,
{
    (String::from_str(prefix), String::from_str(command), confidence)
}

pub open spec fn entries_view(v: Seq<(String, String, u32)>) -> Seq<(Seq<char>, Seq<char>, u32)> {
    v.map_values(|e: (String, String, u32)| (e.0@, e.1@, e.2))
}

fn rule_entries() -> (r: Vec<(String, String, u32)>)
    ensures
        entries_view(r@) == rule_table(),
{
    let mut v: Vec<(String, String, u32)> = Vec::new();
    v.push(static_entry("git", "git status", 95));
    v.push(static_entry("git", "git add .", 90));
    v.push(static_entry("git", "git commit -m \"\"", 85));
    v.push(static_entry("git", "git push", 80));
    v.push(static_entry("git", "git pull", 80));
    v.push(static_entry("docker", "docker ps", 95));
    v.push(static_entry("docker", "docker compose up -d", 90));
    v.push(static_entry("docker", "docker build -t app .", 85));
    v.push(static_entry("cargo", "cargo build", 95));
    v.push(static_entry("cargo", "cargo test", 90));
    v.push(static_entry("cargo", "cargo run", 85));
    v.push(static_entry("cargo", "cargo clippy", 80));
    assert(entries_view(v@) =~= rule_table());
    v
}

fn make(command: String, confidence: u32, source: &str) -> (r: Suggestion)
    ensures
        r@ == sv(command@, confidence, source@),
{
    Suggestion { command, confidence, source: String::from_str(source) }
}

/// The built-in rules (git, docker, cargo) applied to a query already trimmed (`t`) and
/// also lowercased (`q`), in table order.
pub fn rule_suggestions(t: &str, q: &str) -> (r: Vec<Suggestion>)
    ensures
        views(r@) == rules_spec(t@, q@),
{
    if q.is_empty() {
        let mut out: Vec<Suggestion> = Vec::new();
        out.push(make(String::from_str("ls -la"), 70, "static"));
        out.push(make(String::from_str("pwd"), 65, "static"));
        out.push(make(String::from_str("git status"), 60, "static"));
        assert(views(out@) =~= rules_spec(t@, q@));
        return out;
    }
    let first = match first_word(q) {
        Some(w) => w,
        None => String::from_str(q),
    };
    let ghost first_v = match first_word_seq(q@) {
        Some(w) => w,
        None => q@,
    };
    assert(first@ == first_v);
    let table = rule_entries();
    let ghost tv = entries_view(table@);
    let mut out: Vec<Suggestion> = Vec::new();
    let mut i: usize = 0;
    while i < table.len()
        invariant
            0 <= i <= table@.len(),
            tv == entries_view(table@),
            tv == rule_table(),
            first@ == first_v,
            views(out@) == hits(tv.take(i as int), q@, first_v, t@),
        decreases table@.len() - i,
    {
        let e = &table[i];
        let applies = starts_with(q, e.0.as_str()) || str_eq(first.as_str(), e.0.as_str());
        let kept = applies && (starts_with(e.1.as_str(), t) || t.is_empty());
        let ghost before = views(out@);
        assert(tv.take(i + 1).drop_last() =~= tv.take(i as int));
        assert(tv[i as int] == (e.0@, e.1@, e.2));
        if kept {
            out.push(make(e.1.clone(), e.2, "static"));
            assert(views(out@) =~= before.push(sv(e.1@, e.2, "static"@)));
        } else {
            assert(views(out@) =~= before);
        }
        i = i + 1;
    }
    assert(tv.take(table@.len() as int) =~= tv);
    if out.len() == 0 {
        let mut fallback: Vec<Suggestion> = Vec::new();
        fallback.push(make(String::from_str(t), 50, "static"));
        assert(views(fallback@) =~= rules_spec(t@, q@));
        return fallback;
    }
    out
}

/// Suggestions from the built-in rules (git, docker, cargo), in table order.
pub fn static_suggestions(query: &str) -> (r: Vec<Suggestion>)
    ensures
        views(r@) == static_spec(query@),
{
    let t = trim(query);
    let q = to_lowercase(t.as_str());
    rule_suggestions(t.as_str(), q.as_str())
}

/// Whether a configuration asks for AI suggestions.
pub fn ai_suggestions_wanted(ai: &AIConfig) -> (r: bool)
    ensures
        r == wants_ai(*ai),
{
    ai.enabled && ai.auto_suggestions && eq_ignore_ascii_case(ai.provider.as_str(), "ollama")
}

/// Allows a request unless the previous allowed one was less than six seconds before
/// `now_ns` (a monotonic clock reading in nanoseconds); an allowed request is remembered.
pub fn check_rate_limit(limiter: &mut RateLimiter, now_ns: u64) -> (r: bool)
    ensures
        r == rate_allows(old(limiter).last_request_ns, now_ns),
        r ==> final(limiter).last_request_ns == Some(now_ns),
        !r ==> *final(limiter) == *old(limiter),
        final(limiter).last_request_ns == rate_step(old(limiter).last_request_ns, now_ns),
        r ==> (old(limiter).last_request_ns matches Some(t) ==> now_ns >= t + rate_window_ns()),
{
    if let Some(t) = limiter.last_request_ns {
        let elapsed = if now_ns >= t {
            now_ns - t
        } else {
            0
        };
        if elapsed < 6_000_000_000u64 {
            return false;
        }
    }
    limiter.last_request_ns = Some(now_ns);
    true
}

/// Decides what happens to the AI backend for a request made at `now_ns`.
pub fn suggest_stage(config: &Config, limiter: &mut RateLimiter, now_ns: u64) -> (r: SuggestStage)
    ensures
        !wants_ai(config.ai) ==> r == SuggestStage::NoAi && *final(limiter) == *old(limiter),
        wants_ai(config.ai) ==> (r == SuggestStage::QueryAi) == rate_allows(old(limiter).last_request_ns, now_ns),
        wants_ai(config.ai) ==> r != SuggestStage::NoAi,
        r == SuggestStage::QueryAi ==> final(limiter).last_request_ns == Some(now_ns),
        r != SuggestStage::QueryAi ==> *final(limiter) == *old(limiter),
{
    if !ai_suggestions_wanted(&config.ai) {
        return SuggestStage::NoAi;
    }
    if check_rate_limit(limiter, now_ns) {
        SuggestStage::QueryAi
    } else {
        SuggestStage::RateLimited
    }
}

fn has_command_exec(out: &Vec<Suggestion>, c: &str) -> (r: bool)
    ensures
        r == has_command(views(out@), c@),
{
    let mut j: usize = 0;
    while j < out.len()
        invariant
            0 <= j <= out@.len(),
            forall|k: int| 0 <= k < j ==> out@[k].command@ != c@,
        decreases out@.len() - j,
    {
        if str_eq(out[j].command.as_str(), c) {
            assert(views(out@)[j as int].command == c@);
            return true;
        }
        j = j + 1;
    }
    assert forall|i: int| 0 <= i < views(out@).len() implies (#[trigger] views(out@)[i]).command
        != c@ by {
        assert(views(out@)[i] == out@[i]@);
    }
    false
}

/// Appends each suggestion of `extra` whose command is not yet in `out`.
pub fn merge_suggestions(out: &mut Vec<Suggestion>, extra: Vec<Suggestion>)
    ensures
        views(final(out)@) == merge_spec(views(old(out)@), views(extra@)),
{
    let ghost e0 = views(extra@);
    let ghost o0 = views(out@);
    let mut extra = extra;
    let ghost mut k: int = 0;
    let ghost n = extra@.len();
    while extra.len() > 0
        invariant
            0 <= k <= n,
            k + extra@.len() == n,
            e0.len() == n,
            views(extra@) == e0.skip(k),
            views(out@) == merge_spec(o0, e0.take(k)),
        decreases extra@.len(),
    {
        let ghost ex = extra@;
        let s = extra.remove(0);
        assert(views(ex)[0] == ex[0]@);
        assert(s@ == e0[k]);
        assert(e0.take(k + 1).drop_last() =~= e0.take(k));
        assert(views(extra@) =~= views(ex).skip(1));
        assert(views(ex).skip(1) =~= e0.skip(k + 1));
        let ghost m = views(out@);
        if !has_command_exec(out, s.command.as_str()) {
            out.push(s);
            assert(views(out@) =~= m.push(e0[k]));
        }
        proof {
            k = k + 1;
        }
    }
    assert(e0.take(k) =~= e0);
}

fn first_below_exec(out: &Vec<Suggestion>, c: u32) -> (r: usize)
    ensures
        r == first_below(views(out@), c, 0),
        r <= out@.len(),
{
    let mut k: usize = 0;
    while k < out.len() && out[k].confidence >= c
        invariant
            0 <= k <= out@.len(),
            first_below(views(out@), c, 0) == first_below(views(out@), c, k as int),
        decreases out@.len() - k,
    {
        k = k + 1;
    }
    k
}

/// Most confident first (stable among equals), then at most ten.
pub fn rank_suggestions(v: Vec<Suggestion>) -> (r: Vec<Suggestion>)
    ensures
        views(r@) == rank_spec(views(v@)),
{
    let ghost v0 = views(v@);
    let ghost n = v@.len();
    let mut v = v;
    let mut out: Vec<Suggestion> = Vec::new();
    let ghost mut i: int = 0;
    while v.len() > 0
        invariant
            0 <= i <= n,
            i + v@.len() == n,
            v0.len() == n,
            views(v@) == v0.skip(i),
            views(out@) == sort_desc(v0.take(i)),
        decreases v@.len(),
    {
        let ghost vx = v@;
        let x = v.remove(0);
        assert(views(vx)[0] == vx[0]@);
        assert(x@ == v0[i]);
        let ghost before = views(out@);
        assert(v0.take(i + 1).drop_last() =~= v0.take(i));
        assert(views(v@) =~= views(vx).skip(1));
        assert(views(vx).skip(1) =~= v0.skip(i + 1));
        let k = first_below_exec(&out, x.confidence);
        out.insert(k, x);
        assert(views(out@) =~= before.take(k as int) + seq![x@] + before.skip(k as int));
        proof {
            i = i + 1;
        }
    }
    assert(v0.take(i) =~= v0);
    if out.len() > 10 {
        out.truncate(10);
        assert(views(out@) =~= sort_desc(v0).take(10));
    }
    out
}

/// The final suggestion list: the static suggestions, merged with the backend's answer when
/// it was asked, ranked, except that a rate-limited request returns them unranked.
pub fn suggest(query: &str, stage: SuggestStage, ai: Option<Vec<Suggestion>>) -> (r: Vec<
    Suggestion,
>)
    ensures
        views(r@) == suggest_spec(
            query@,
            stage,
            match ai {
                Some(a) => Some(views(a@)),
                None => None,
            },
        ),
{
    let mut out = static_suggestions(query);
    match stage {
        SuggestStage::RateLimited => out,
        SuggestStage::NoAi => rank_suggestions(out),
        SuggestStage::QueryAi => {
            if let Some(a) = ai {
                merge_suggestions(&mut out, a);
            }
            rank_suggestions(out)
        },
    }
}

/// `http(s)://host:port` with trailing slashes dropped, then the generate path.
pub fn ollama_generate_url(endpoint: &str) -> (r: String)
    ensures
        r@ == trim_end_char_seq(endpoint@, '/') + "/api/generate"@,
{
    let mut u = trim_end_char(endpoint, '/');
    u.append("/api/generate");
    u
}

/// The prompt that asks the model for commands.
pub fn ollama_prompt(query: &str) -> (r: String)
    ensures
        r@ == prompt_spec(query@),
{
    let mut p = String::from_str(
        "You are a shell assistant. Given this user intent or partial command: \"",
    );
    p.append(query);
    p.append(
        "\" Reply with up to 3 shell commands only, one per line, no numbering or explanation.",
    );
    p
}

proof fn lemma_pieces_nonempty(s: Seq<char>)
    ensures
        pieces(s).len() >= 1,
    decreases s.len(),
{
    if s.len() > 0 {
        lemma_pieces_nonempty(s.drop_last());
    }
}

fn skip_numbering_exec(cs: &Vec<char>, from: usize, to: usize) -> (r: usize)
    requires
        from <= to <= cs@.len(),
    ensures
        from <= r <= to,
        r - from == skip_numbering(cs@.subrange(from as int, to as int), 0),
{
    let ghost u = cs@.subrange(from as int, to as int);
    let mut k = from;
    while k < to && (char_is_numeric(cs[k]) || cs[k] == '.' || cs[k] == '-' || cs[k] == ')')
        invariant
            from <= k <= to <= cs@.len(),
            u == cs@.subrange(from as int, to as int),
            skip_numbering(u, 0) == skip_numbering(u, k - from),
        decreases to - k,
    {
        assert(u[k - from] == cs@[k as int]);
        k = k + 1;
    }
    proof {
        if k < to {
            assert(u[k - from] == cs@[k as int]);
        }
    }
    k
}

/// The command held by the line `cs[from..to]`, if any.
fn piece_command(cs: &Vec<char>, from: usize, to: usize) -> (r: Option<String>)
    requires
        from <= to <= cs@.len(),
    ensures
        match line_command(cs@.subrange(from as int, to as int)) {
            Some(c) => r matches Some(s) && s@ == c,
            None => r is None,
        },
{
    let (a, b) = trim_bounds(cs, from, to);
    let ghost line = cs@.subrange(a as int, b as int);
    if a == b {
        return None;
    }
    assert(line[0] == cs@[a as int]);
    if cs[a] == '#' {
        return None;
    }
    let k = skip_numbering_exec(cs, a, b);
    let (c1, c2) = trim_bounds(cs, k, b);
    assert(line.subrange(k - a, line.len() as int) =~= cs@.subrange(k as int, b as int));
    if c1 == c2 {
        return None;
    }
    Some(string_of(cs, c1, c2))
}

/// The suggestions in an Ollama reply: one per line that holds a command, numbering removed.
pub fn parse_ollama_response(text: &str) -> (r: Vec<Suggestion>)
    ensures
        views(r@) == ollama_spec(text@),
{
    let cs = chars_of(text);
    let n = cs.len();
    let mut cmds: Vec<String> = Vec::new();
    let mut start: usize = 0;
    let mut i: usize = 0;
    while i < n
        invariant
            0 <= start <= i <= n == cs@.len(),
            cs@ == text@,
            pieces(text@.take(i as int)).last() == text@.subrange(start as int, i as int),
            cmds@.map_values(|s: String| s@) == commands(pieces(text@.take(i as int)).drop_last()),
        decreases n - i,
    {
        let ghost p = pieces(text@.take(i as int));
        proof {
            lemma_pieces_nonempty(text@.take(i as int));
        }
        assert(text@.take(i + 1).drop_last() =~= text@.take(i as int));
        if cs[i] == '\n' {
            let c = piece_command(&cs, start, i);
            let ghost before = cmds@.map_values(|s: String| s@);
            assert(p.push(seq![]).drop_last() =~= p);
            assert(p =~= p.drop_last().push(p.last()));
            match c {
                Some(s) => {
                    cmds.push(s);
                    assert(cmds@.map_values(|s: String| s@) =~= before.push(
                        line_command(p.last())->0,
                    ));
                },
                None => {},
            }
            start = i + 1;
            assert(pieces(text@.take(i + 1)) == p.push(seq![]));
            assert(text@.subrange(start as int, i + 1) =~= seq![]);
        } else {
            let ghost q = p.update(p.len() - 1, p.last().push(cs@[i as int]));
            assert(q.drop_last() =~= p.drop_last());
            assert(text@.subrange(start as int, i + 1) =~= p.last().push(cs@[i as int]));
        }
        i = i + 1;
    }
    assert(text@.take(n as int) =~= text@);
    proof {
        lemma_pieces_nonempty(text@);
    }
    let ghost p = pieces(text@);
    let c = piece_command(&cs, start, n);
    assert(p =~= p.drop_last().push(p.last()));
    match c {
        Some(s) => {
            cmds.push(s);
        },
        None => {},
    }
    assert(cmds@.map_values(|s: String| s@) =~= commands(p));
    let mut out: Vec<Suggestion> = Vec::new();
    let mut j: usize = 0;
    let ghost cv = commands(p);
    while j < cmds.len()
        invariant
            0 <= j <= cmds@.len(),
            cmds@.map_values(|s: String| s@) == cv,
            views(out@) == cv.take(j as int).map_values(|c: Seq<char>| sv(c, 75, "ollama"@)),
        decreases cmds@.len() - j,
    {
        assert(cv[j as int] == cmds@[j as int]@);
        let ghost before = views(out@);
        out.push(make(cmds[j].clone(), 75, "ollama"));
        assert(views(out@) =~= before.push(sv(cv[j as int], 75, "ollama"@)));
        assert(cv.take(j + 1) =~= cv.take(j as int).push(cv[j as int]));
        assert(cv.take(j + 1).map_values(|c: Seq<char>| sv(c, 75, "ollama"@)) =~= cv.take(
            j as int,
        ).map_values(|c: Seq<char>| sv(c, 75, "ollama"@)).push(sv(cv[j as int], 75, "ollama"@)));
        j = j + 1;
    }
    assert(cv.take(cmds@.len() as int) =~= cv);
    out
}


proof fn lemma_first_below(s: Seq<SuggestionView>, c: u32, k: int)
    requires
        0 <= k <= s.len(),
    ensures
        k <= first_below(s, c, k) <= s.len(),
        forall|j: int| k <= j < first_below(s, c, k) ==> (#[trigger] s[j]).confidence >= c,
        first_below(s, c, k) < s.len() ==> s[first_below(s, c, k)].confidence < c,
    decreases s.len() - k,
{
    if k < s.len() && s[k].confidence >= c {
        lemma_first_below(s, c, k + 1);
    }
}

/// Ranking sorts: the result is in descending order of confidence and holds exactly the
/// suggestions it was given.
pub proof fn lemma_sort_desc_sorted_permutation(s: Seq<SuggestionView>)
    ensures
        sorted_desc(sort_desc(s)),
        sort_desc(s).to_multiset() == s.to_multiset(),
        sort_desc(s).len() == s.len(),
    decreases s.len(),
{
    broadcast use vstd::seq_lib::to_multiset_build, vstd::seq_lib::to_multiset_insert;

    if s.len() > 0 {
        let p = sort_desc(s.drop_last());
        lemma_sort_desc_sorted_permutation(s.drop_last());
        let x = s.last();
        let k = first_below(p, x.confidence, 0);
        lemma_first_below(p, x.confidence, 0);
        let r = p.take(k) + seq![x] + p.skip(k);
        assert(r =~= p.insert(k, x));
        assert(s =~= s.drop_last().push(x));
        assert forall|i: int, j: int| 0 <= i < j < r.len() implies r[i].confidence >= r[j].confidence by {
            if j < k {
                assert(r[i] == p[i] && r[j] == p[j]);
            } else if j == k {
                assert(r[i] == p[i] && r[j] == x);
            } else if i < k {
                assert(r[i] == p[i] && r[j] == p[j - 1]);
            } else if i == k {
                assert(r[i] == x && r[j] == p[j - 1]);
                assert(p[k].confidence < x.confidence);
            } else {
                assert(r[i] == p[i - 1] && r[j] == p[j - 1]);
            }
        }
    }
}

/// The ranked list is sorted, holds at most ten suggestions, and each is one it was given.
pub proof fn lemma_rank_sorted_bounded(s: Seq<SuggestionView>)
    ensures
        sorted_desc(rank_spec(s)),
        rank_spec(s).len() <= 10,
        forall|i: int| 0 <= i < rank_spec(s).len() ==> s.contains(#[trigger] rank_spec(s)[i]),
{
    broadcast use vstd::seq_lib::to_multiset_contains;

    lemma_sort_desc_sorted_permutation(s);
    let r = sort_desc(s);
    assert forall|i: int| 0 <= i < rank_spec(s).len() implies s.contains(#[trigger] rank_spec(s)[i]) by {
        assert(rank_spec(s)[i] == r[i]);
        assert(r.contains(r[i]));
        assert(r.to_multiset().count(r[i]) > 0);
    }
}

proof fn lemma_hits_static(entries: Seq<(Seq<char>, Seq<char>, u32)>, q: Seq<char>, first: Seq<char>, t: Seq<char>)
    ensures
        forall|i: int| 0 <= i < hits(entries, q, first, t).len() ==> (#[trigger] hits(entries, q, first, t)[i]).source
            == "static"@,
    decreases entries.len(),
{
    if entries.len() > 0 {
        lemma_hits_static(entries.drop_last(), q, first, t);
        let h = hits(entries.drop_last(), q, first, t);
        let e = entries.last();
        let tail = if entry_kept(e, q, first, t) {
            seq![sv(e.1, e.2, "static"@)]
        } else {
            seq![]
        };
        assert(hits(entries, q, first, t) == h + tail);
        assert forall|i: int| 0 <= i < (h + tail).len() implies (#[trigger] (h + tail)[i]).source == "static"@ by {
            if i < h.len() {
                assert((h + tail)[i] == h[i]);
            } else {
                assert((h + tail)[i] == tail[i - h.len()]);
            }
        }
    }
}

/// The static rules always suggest something, and every suggestion they give is marked
/// `static`.
pub proof fn lemma_static_suggestions_nonempty(query: Seq<char>)
    ensures
        static_spec(query).len() > 0,
        forall|i: int| 0 <= i < static_spec(query).len() ==> (#[trigger] static_spec(query)[i]).source == "static"@,
{
    let t = trim_seq(query);
    let q = lowercase_of(t);
    let first = match first_word_seq(q) {
        Some(w) => w,
        None => q,
    };
    lemma_hits_static(rule_table(), q, first, t);
}

/// Without the AI backend (not wanted, or rate limited) every suggestion given is a static
/// one.
pub proof fn lemma_without_ai_all_static(query: Seq<char>, stage: SuggestStage, ai: Option<Seq<SuggestionView>>)
    requires
        stage != SuggestStage::QueryAi,
    ensures
        forall|i: int| 0 <= i < suggest_spec(query, stage, ai).len() ==> (#[trigger] suggest_spec(
            query,
            stage,
            ai,
        )[i]).source == "static"@,
        suggest_spec(query, stage, ai).len() > 0,
{
    lemma_static_suggestions_nonempty(query);
    let st = static_spec(query);
    lemma_rank_sorted_bounded(st);
    lemma_sort_desc_sorted_permutation(st);
    if stage == SuggestStage::NoAi {
        assert forall|i: int| 0 <= i < suggest_spec(query, stage, ai).len() implies (#[trigger] suggest_spec(
            query,
            stage,
            ai,
        )[i]).source == "static"@ by {
            let x = rank_spec(st)[i];
            assert(st.contains(x));
        }
        assert(sort_desc(st).len() > 0);
    }
}

/// Once a request is allowed at `t1`, none is allowed before six seconds have passed.
pub proof fn lemma_rate_limit_spacing(t1: u64, t2: u64)
    requires
        t1 <= t2,
        t2 - t1 < rate_window_ns(),
    ensures
        !rate_allows(Some(t1), t2),
{
}


/// After the `i`-th request was allowed, the limiter remembers an instant no earlier than
/// it: what it remembers only grows.
proof fn lemma_remembered_after_grant(ts: Seq<u64>, init: Option<u64>, i: int, n: int)
    requires
        0 <= i < n <= ts.len(),
        granted(ts, init, i),
    ensures
        limiter_after(ts, init, n) matches Some(v) && v >= ts[i],
    decreases n,
{
    if n > i + 1 {
        lemma_remembered_after_grant(ts, init, i, n - 1);
    }
}

/// Of any sequence of requests, two that are allowed are at least six seconds apart, the
/// later after the earlier, whatever the instants in between.
pub proof fn lemma_granted_requests_spaced(ts: Seq<u64>, init: Option<u64>, i: int, j: int)
    requires
        0 <= i < j < ts.len(),
        granted(ts, init, i),
        granted(ts, init, j),
    ensures
        ts[j] - ts[i] >= rate_window_ns(),
{
    lemma_remembered_after_grant(ts, init, i, j);
}

/// Among the first `n` requests, when `c` of them are allowed inside the window starting at
/// `t`, one of those comes at least `6 (c - 1)` seconds after `t`.
proof fn lemma_window_witness(ts: Seq<u64>, init: Option<u64>, t: int, n: int) -> (m: int)
    requires
        0 <= n <= ts.len(),
        granted_in_window(ts, init, t, n) > 0,
    ensures
        0 <= m < n,
        granted(ts, init, m),
        t <= ts[m] < t + 60_000_000_000,
        ts[m] >= t + 6_000_000_000 * (granted_in_window(ts, init, t, n) - 1),
    decreases n,
{
    let before = granted_in_window(ts, init, t, n - 1);
    if granted(ts, init, n - 1) && t <= ts[n - 1] < t + 60_000_000_000 {
        if before > 0 {
            let m0 = lemma_window_witness(ts, init, t, n - 1);
            lemma_granted_requests_spaced(ts, init, m0, n - 1);
        }
        n - 1
    } else {
        lemma_window_witness(ts, init, t, n - 1)
    }
}

/// Of any sequence of requests, at most ten are allowed in any minute `[t, t + 60 s)`.
pub proof fn lemma_at_most_ten_per_minute(ts: Seq<u64>, init: Option<u64>, t: int)
    ensures
        granted_in_window(ts, init, t, ts.len() as int) <= 10,
{
    let c = granted_in_window(ts, init, t, ts.len() as int);
    if c > 10 {
        let m = lemma_window_witness(ts, init, t, ts.len() as int);
        assert(ts[m] >= t + 6_000_000_000 * (c - 1));
    }
}

/// No two suggestions propose the same command.
pub open spec fn distinct_commands(s: Seq<SuggestionView>) -> bool {
    forall|i: int, j: int| 0 <= i < j < s.len() ==> (#[trigger] s[i]).command != (#[trigger] s[j]).command
}

/// Merging the backend's answer adds only commands that are not there yet, keeps what was
/// there in front, and never repeats a command.
pub proof fn lemma_merge_keeps_commands_distinct(out: Seq<SuggestionView>, extra: Seq<SuggestionView>)
    requires
        distinct_commands(out),
    ensures
        distinct_commands(merge_spec(out, extra)),
        merge_spec(out, extra).take(out.len() as int) == out,
        merge_spec(out, extra).len() >= out.len(),
    decreases extra.len(),
{
    if extra.len() > 0 {
        lemma_merge_keeps_commands_distinct(out, extra.drop_last());
        let m = merge_spec(out, extra.drop_last());
        let x = extra.last();
        if !has_command(m, x.command) {
            let r = m.push(x);
            assert forall|i: int, j: int| 0 <= i < j < r.len() implies (#[trigger] r[i]).command != (#[trigger] r[j]).command by {
                if j == m.len() {
                    assert(r[i] == m[i]);
                    assert(!(0 <= i < m.len() && m[i].command == x.command));
                } else {
                    assert(r[i] == m[i] && r[j] == m[j]);
                }
            }
            assert(r.take(out.len() as int) =~= m.take(out.len() as int));
        }
    }
}

/// Merging keeps every command that was there, adds every command of the backend's answer,
/// and holds nothing but those suggestions.
pub proof fn lemma_merge_complete(out: Seq<SuggestionView>, extra: Seq<SuggestionView>)
    ensures
        forall|i: int| 0 <= i < out.len() ==> has_command(merge_spec(out, extra), (#[trigger] out[i]).command),
        forall|i: int| 0 <= i < extra.len() ==> has_command(merge_spec(out, extra), (#[trigger] extra[i]).command),
        forall|j: int|
            0 <= j < merge_spec(out, extra).len() ==> out.contains(#[trigger] merge_spec(out, extra)[j])
                || extra.contains(merge_spec(out, extra)[j]),
    decreases extra.len(),
{
    if extra.len() == 0 {
        assert forall|i: int| 0 <= i < out.len() implies has_command(out, (#[trigger] out[i]).command) by {
            assert(out[i].command == out[i].command);
        }
        assert forall|j: int| 0 <= j < out.len() implies out.contains(#[trigger] out[j]) by {
            assert(out[j] == out[j]);
        }
    } else {
        let d = extra.drop_last();
        let x = extra.last();
        lemma_merge_complete(out, d);
        let m = merge_spec(out, d);
        let r = merge_spec(out, extra);
        assert(forall|i: int| 0 <= i < d.len() ==> d[i] == extra[i]);
        assert(x == extra[extra.len() - 1]);
        if !has_command(m, x.command) {
            assert(r == m.push(x));
            assert forall|c: Seq<char>| has_command(m, c) implies has_command(r, c) by {
                let w = choose|w: int| 0 <= w < m.len() && (#[trigger] m[w]).command == c;
                assert(r[w] == m[w]);
            }
            assert(r[m.len() as int] == x);
            assert forall|i: int| 0 <= i < out.len() implies has_command(r, (#[trigger] out[i]).command) by {
                assert(has_command(m, out[i].command));
            }
            assert forall|i: int| 0 <= i < extra.len() implies has_command(r, (#[trigger] extra[i]).command) by {
                if i < d.len() {
                    assert(has_command(m, d[i].command));
                }
            }
            assert forall|j: int| 0 <= j < r.len() implies out.contains(#[trigger] r[j]) || extra.contains(r[j]) by {
                if j < m.len() {
                    assert(r[j] == m[j]);
                    if d.contains(m[j]) {
                        let w = choose|w: int| 0 <= w < d.len() && d[w] == m[j];
                        assert(extra[w] == m[j]);
                    }
                } else {
                    assert(extra[extra.len() - 1] == r[j]);
                }
            }
        } else {
            assert forall|i: int| 0 <= i < out.len() implies has_command(r, (#[trigger] out[i]).command) by {
                assert(has_command(m, out[i].command));
            }
            assert forall|i: int| 0 <= i < extra.len() implies has_command(r, (#[trigger] extra[i]).command) by {
                if i < d.len() {
                    assert(has_command(m, d[i].command));
                }
            }
            assert forall|j: int| 0 <= j < r.len() implies out.contains(#[trigger] r[j]) || extra.contains(r[j]) by {
                if d.contains(m[j]) {
                    let w = choose|w: int| 0 <= w < d.len() && d[w] == m[j];
                    assert(extra[w] == m[j]);
                }
            }
        }
    }
}

/// A reply line is dropped only when it is blank, when its trimmed text starts with `#`, or
/// when nothing is left after its numbering; otherwise it gives the trimmed text after the
/// numbering, whatever `#` it holds further on.
pub proof fn lemma_line_command_keeps_commands(p: Seq<char>)
    ensures
        ({
            let line = trim_seq(p);
            let rest = trim_seq(line.subrange(skip_numbering(line, 0), line.len() as int));
            &&& (line.len() > 0 && line[0] != '#' && rest.len() > 0) ==> line_command(p) == Some(rest)
            &&& line_command(p) is None <==> (line.len() == 0 || line[0] == '#' || rest.len() == 0)
        }),
{
}

} // verus!
