//! Environment variable redaction for stack responses.
//!
//! Controls how env var values appear in tool outputs and resources. The
//! configuration comes from three settings: the display mode
//! (`PORTAINER_ENV_DISPLAY`), extra sensitive names
//! (`PORTAINER_SENSITIVE_NAMES`) and names forced visible
//! (`PORTAINER_VISIBLE_NAMES`); the caller reads them and hands their
//! values to [`RedactConfig::from_env`].

use vstd::prelude::*;

use crate::models::{EnvVar, EnvVarView, Stack, StackView, env_view, stacks_view};
use crate::text::{
    ascii_lower, ascii_lowercase, chars_of, contains_chars, ends_with_chars, has_infix, has_suffix,
    is_ws, lowercase_range, owned, string_of, trim_bounds, trim_end_ws, trim_start_ws, trim_ws,
};

verus! {

/// Controls how environment variable values are displayed in tool responses.
#[derive(Debug, Clone, Copy, PartialEq, Eq, Structural)]
pub enum EnvDisplayMode {
    /// All env var values replaced with `[MASKED]`. This is the default.
    Masked,
    /// Values whose names match sensitive patterns are replaced with `[REDACTED]`;
    /// all other values are shown in cleartext.
    Filtered,
    /// All values shown in cleartext. Use with caution.
    Full,
}

/// The mode that a value of `PORTAINER_ENV_DISPLAY` selects: `filtered`
/// and `full` in any letter case select those modes, anything else
/// (including an empty or unset value) selects `Masked`.
pub open spec fn mode_of_setting(value: Seq<char>) -> EnvDisplayMode {
    if ascii_lower(value) == "filtered"@ {
        EnvDisplayMode::Filtered
    } else if ascii_lower(value) == "full"@ {
        EnvDisplayMode::Full
    } else {
        EnvDisplayMode::Masked
    }
}

impl EnvDisplayMode {
    /// The label of a mode.
    pub open spec fn label_text(self) -> Seq<char> {
        match self {
            EnvDisplayMode::Masked => "masked"@,
            EnvDisplayMode::Filtered => "filtered"@,
            EnvDisplayMode::Full => "full"@,
        }
    }

    /// The description of a mode.
    pub open spec fn description_text(self) -> Seq<char> {
        match self {
            EnvDisplayMode::Masked => "all environment variable values are hidden"@,
            EnvDisplayMode::Filtered => "values matching sensitive patterns are redacted, others are visible"@,
            EnvDisplayMode::Full => "all environment variable values are shown in cleartext"@,
        }
    }

    /// The mode selected by `value`, the value of `PORTAINER_ENV_DISPLAY`
    /// (the empty string when it is unset).
    ///
    /// Returns [`Masked`](EnvDisplayMode::Masked) for unset, empty, or
    /// unrecognised values. Letter case is folded in ASCII: no non-ASCII
    /// character lowercases to a letter of `filtered` or `full`, so full
    /// Unicode lowercasing would select the same modes.
    pub fn from_env(value: &str) -> (r: Self)
        ensures
            r == mode_of_setting(value@),
    {
        let lower = string_of(&ascii_lowercase(value));
        let filtered = owned("filtered");
        let full = owned("full");
        if lower == filtered {
            EnvDisplayMode::Filtered
        } else if lower == full {
            EnvDisplayMode::Full
        } else {
            EnvDisplayMode::Masked
        }
    }

    /// Human-readable label for this mode.
    pub fn label(self) -> (r: &'static str)
        ensures
            r@ == self.label_text(),
    {
        match self {
            EnvDisplayMode::Masked => "masked",
            EnvDisplayMode::Filtered => "filtered",
            EnvDisplayMode::Full => "full",
        }
    }

    /// Short description of what this mode does.
    pub fn description(self) -> (r: &'static str)
        ensures
            r@ == self.description_text(),
    {
        match self {
            EnvDisplayMode::Masked => "all environment variable values are hidden",
            EnvDisplayMode::Filtered => "values matching sensitive patterns are redacted, others are visible",
            EnvDisplayMode::Full => "all environment variable values are shown in cleartext",
        }
    }
}


// ── Redaction config ────────────────────────────────────────────────────────

/// The character sequences of a list of strings.
pub open spec fn names_view(v: Seq<String>) -> Seq<Seq<char>> {
    v.map_values(|s: String| s@)
}

/// What a [`RedactConfig`] decides by: the mode and the two name sets.
pub struct RedactConfigView {
    pub mode: EnvDisplayMode,
    /// Extra names to always treat as sensitive.
    pub sensitive: Set<Seq<char>>,
    /// Names to always treat as visible, overriding patterns and `sensitive`.
    pub visible: Set<Seq<char>>,
}

impl RedactConfigView {
    /// Whether the value of a variable called `name` is redacted in
    /// `filtered` mode. Names are compared in ASCII lowercase, and the
    /// priority is: explicit visible > explicit sensitive > built-in pattern.
    pub open spec fn redacts(self, name: Seq<char>) -> bool {
        let lower = ascii_lower(name);
        if self.visible.contains(lower) {
            false
        } else if self.sensitive.contains(lower) {
            true
        } else {
            sensitive_pattern(lower)
        }
    }
}

/// The pieces of `s` between occurrences of `sep` (`str::split` with a
/// `char`): `n` separators give `n + 1` pieces, empty ones included.
pub open spec fn split_on(s: Seq<char>, sep: char) -> Seq<Seq<char>>
    decreases s.len(),
{
    if s.len() == 0 {
        seq![Seq::<char>::empty()]
    } else {
        let r = split_on(s.drop_last(), sep);
        if s.last() == sep {
            r.push(Seq::<char>::empty())
        } else {
            r.update(r.len() - 1, r.last().push(s.last()))
        }
    }
}

/// A name as it is kept in a name list: trimmed and in ASCII lowercase.
pub open spec fn clean_name(piece: Seq<char>) -> Seq<char> {
    ascii_lower(trim_ws(piece))
}

/// The non-empty cleaned names of a sequence of pieces.
pub open spec fn names_of(pieces: Seq<Seq<char>>) -> Set<Seq<char>>
    decreases pieces.len(),
{
    if pieces.len() == 0 {
        Set::empty()
    } else {
        let rest = names_of(pieces.drop_last());
        let n = clean_name(pieces.last());
        if n.len() > 0 {
            rest.insert(n)
        } else {
            rest
        }
    }
}

/// The names a comma-separated setting lists: each piece trimmed and
/// lowercased, empty pieces dropped.
pub open spec fn name_list(raw: Seq<char>) -> Set<Seq<char>> {
    names_of(split_on(raw, ','))
}

/// Full redaction configuration.
///
/// Combines the display mode with user-supplied override lists that
/// control which names are treated as sensitive in `filtered` mode.
#[derive(Debug)]
pub struct RedactConfig {
    mode: EnvDisplayMode,
    /// Extra names to always treat as sensitive.
    sensitive_names: Vec<String>,
    /// Names to always treat as visible, overriding patterns and
    /// `sensitive_names`.
    visible_names: Vec<String>,
}

impl View for RedactConfig {
    type V = RedactConfigView;

    closed spec fn view(&self) -> RedactConfigView {
        RedactConfigView {
            mode: self.mode,
            sensitive: names_view(self.sensitive_names@).to_set(),
            visible: names_view(self.visible_names@).to_set(),
        }
    }
}

/// Adding an element to a sequence adds it to the set of its elements.
proof fn lemma_push_to_set<A>(s: Seq<A>, x: A)
    ensures
        s.push(x).to_set() == s.to_set().insert(x),
{
    assert forall|y: A| #[trigger] s.push(x).to_set().contains(y) <==> s.to_set().insert(x).contains(y) by {
        if s.push(x).contains(y) && y != x {
            let k = choose|k: int| 0 <= k < s.push(x).len() && s.push(x)[k] == y;
            assert(k < s.len());
            assert(s[k] == y);
        }
        if s.contains(y) {
            let k = choose|k: int| 0 <= k < s.len() && s[k] == y;
            assert(s.push(x)[k] == y);
        }
        if y == x {
            assert(s.push(x)[s.len() as int] == x);
        }
    }
    assert(s.push(x).to_set() =~= s.to_set().insert(x));
}

/// Adding an element already present leaves the set of elements unchanged.
proof fn lemma_insert_present<A>(s: Seq<A>, x: A)
    requires
        s.contains(x),
    ensures
        s.to_set().insert(x) == s.to_set(),
{
    assert(s.to_set().insert(x) =~= s.to_set());
}

/// Whether `name` is one of `names`.
fn contains_name(names: &Vec<String>, name: &String) -> (r: bool)
    ensures
        r == names_view(names@).contains(name@),
{
    let mut i: usize = 0;
    while i < names.len()
        invariant
            i <= names@.len(),
            forall|k: int| 0 <= k < i ==> names_view(names@)[k] != name@,
        decreases names@.len() - i,
    {
        if names[i] == *name {
            assert(names_view(names@)[i as int] == name@);
            return true;
        }
        i = i + 1;
    }
    false
}

/// Adds `name` to `names` unless it is already there.
fn insert_name(names: &mut Vec<String>, name: String)
    requires
        names_view(old(names)@).no_duplicates(),
    ensures
        names_view(final(names)@).no_duplicates(),
        names_view(final(names)@).to_set() == names_view(old(names)@).to_set().insert(name@),
{
    if contains_name(names, &name) {
        proof {
            lemma_insert_present(names_view(names@), name@);
        }
    } else {
        let ghost before = names_view(names@);
        let ghost nv = name@;
        names.push(name);
        assert(names_view(names@) =~= before.push(nv));
        proof {
            lemma_push_to_set(before, nv);
            assert forall|a: int, b: int|
                0 <= a < b < names_view(names@).len() implies names_view(names@)[a] != names_view(
                names@,
            )[b] by {
                if b == before.len() {
                    assert(before[a] == names_view(names@)[a]);
                }
            }
        }
    }
}

/// The list `names` without repetitions.
fn dedup_names(names: Vec<String>) -> (r: Vec<String>)
    ensures
        names_view(r@).no_duplicates(),
        names_view(r@).to_set() == names_view(names@).to_set(),
{
    let mut r: Vec<String> = Vec::new();
    let n = names.len();
    let mut names = names;
    let ghost all = names_view(names@);
    let mut i: usize = 0;
    while i < n
        invariant
            n == names@.len(),
            i <= n,
            all == names_view(names@),
            names_view(r@).no_duplicates(),
            names_view(r@).to_set() == all.take(i as int).to_set(),
        decreases n - i,
    {
        let name = names[i].clone();
        insert_name(&mut r, name);
        assert(all.take(i + 1) == all.take(i as int).push(all[i as int]));
        proof {
            lemma_push_to_set(all.take(i as int), all[i as int]);
        }
        i = i + 1;
    }
    assert(all.take(n as int) == all);
    r
}

/// Parse a comma-separated setting into its list of names: each piece is
/// trimmed and lowercased, and empty pieces are dropped.
fn parse_name_list(raw: &str) -> (r: Vec<String>)
    ensures
        names_view(r@).no_duplicates(),
        names_view(r@).to_set() == name_list(raw@),
{
    let chars = chars_of(raw);
    let n = chars.len();
    let mut names: Vec<String> = Vec::new();
    let mut start: usize = 0;
    let mut i: usize = 0;
    let ghost mut done: Seq<Seq<char>> = Seq::empty();
    assert(chars@.take(0) =~= Seq::<char>::empty());
    assert(split_on(chars@.take(0), ',') =~= done.push(chars@.subrange(0, 0)));
    while i < n
        invariant
            n == chars@.len(),
            start <= i <= n,
            split_on(chars@.take(i as int), ',') == done.push(chars@.subrange(start as int, i as int)),
            names_view(names@).no_duplicates(),
            names_view(names@).to_set() == names_of(done),
        decreases n - i,
    {
        let ghost prefix = chars@.take(i as int);
        let ghost next = chars@.take(i + 1);
        let ghost piece = chars@.subrange(start as int, i as int);
        assert(next.drop_last() == prefix);
        assert(next.last() == chars@[i as int]);
        if chars[i] == ',' {
            add_piece(&mut names, &chars, start, i);
            proof {
                assert(done.push(piece).drop_last() =~= done);
                assert(done.push(piece).last() == piece);
                assert(split_on(next, ',') == split_on(prefix, ',').push(Seq::<char>::empty()));
                done = done.push(piece);
                assert(chars@.subrange(i + 1, i + 1) =~= Seq::<char>::empty());
            }
            start = i + 1;
        } else {
            proof {
                let r = split_on(prefix, ',');
                assert(r == done.push(piece));
                assert(split_on(next, ',') == r.update(r.len() - 1, r.last().push(chars@[i as int])));
                assert(chars@.subrange(start as int, i + 1) =~= piece.push(chars@[i as int]));
                assert(r.update(r.len() - 1, r.last().push(chars@[i as int])) =~= done.push(
                    chars@.subrange(start as int, i + 1),
                ));
            }
        }
        i = i + 1;
    }
    add_piece(&mut names, &chars, start, n);
    proof {
        let last = chars@.subrange(start as int, n as int);
        assert(chars@.take(n as int) == chars@);
        assert(done.push(last).drop_last() =~= done);
        assert(done.push(last).last() == last);
    }
    names
}

/// Adds the cleaned name of `chars[start..end]` to `names`, unless it is
/// empty.
fn add_piece(names: &mut Vec<String>, chars: &Vec<char>, start: usize, end: usize)
    requires
        start <= end <= chars@.len(),
        names_view(old(names)@).no_duplicates(),
    ensures
        names_view(final(names)@).no_duplicates(),
        ({
            let n = clean_name(chars@.subrange(start as int, end as int));
            names_view(final(names)@).to_set() == if n.len() > 0 {
                names_view(old(names)@).to_set().insert(n)
            } else {
                names_view(old(names)@).to_set()
            }
        }),
{
    let mut piece: Vec<char> = Vec::new();
    let mut k = start;
    while k < end
        invariant
            start <= k <= end <= chars@.len(),
            piece@ == chars@.subrange(start as int, k as int),
        decreases end - k,
    {
        piece.push(chars[k]);
        assert(chars@.subrange(start as int, k + 1) == chars@.subrange(start as int, k as int).push(
            chars@[k as int],
        ));
        k = k + 1;
    }
    let (a, b) = trim_bounds(&piece);
    let name = lowercase_range(&piece, a, b);
    if a < b {
        insert_name(names, name);
    }
}

impl Clone for RedactConfig {
    fn clone(&self) -> (r: Self)
        ensures
            r@ == self@,
    {
        proof {
            use_type_invariant(self);
        }
        let r = RedactConfig {
            mode: self.mode,
            sensitive_names: self.sensitive_names.clone(),
            visible_names: self.visible_names.clone(),
        };
        assert(names_view(r.sensitive_names@) =~= names_view(self.sensitive_names@));
        assert(names_view(r.visible_names@) =~= names_view(self.visible_names@));
        r
    }
}

impl RedactConfig {
    /// Names in a configuration are kept once each.
    #[verifier::type_invariant]
    spec fn unique_names(self) -> bool {
        &&& names_view(self.sensitive_names@).no_duplicates()
        &&& names_view(self.visible_names@).no_duplicates()
    }

    /// A configuration with the given mode and name lists. The lists are
    /// taken as sets: names are matched exactly as given here, so they are
    /// expected in lowercase.
    pub fn new(mode: EnvDisplayMode, sensitive_names: Vec<String>, visible_names: Vec<String>) -> (r: Self)
        ensures
            r@ == (RedactConfigView {
                mode,
                sensitive: names_view(sensitive_names@).to_set(),
                visible: names_view(visible_names@).to_set(),
            }),
    {
        RedactConfig {
            mode,
            sensitive_names: dedup_names(sensitive_names),
            visible_names: dedup_names(visible_names),
        }
    }

    /// Build configuration from the values of the environment variables
    /// (the empty string for an unset one):
    ///
    /// - `display`: `PORTAINER_ENV_DISPLAY` — display mode
    /// - `sensitive`: `PORTAINER_SENSITIVE_NAMES` — comma-separated names to add as sensitive
    /// - `visible`: `PORTAINER_VISIBLE_NAMES` — comma-separated names to force visible
    pub fn from_env(display: &str, sensitive: &str, visible: &str) -> (r: Self)
        ensures
            r@ == (RedactConfigView {
                mode: mode_of_setting(display@),
                sensitive: name_list(sensitive@),
                visible: name_list(visible@),
            }),
    {
        RedactConfig {
            mode: EnvDisplayMode::from_env(display),
            sensitive_names: parse_name_list(sensitive),
            visible_names: parse_name_list(visible),
        }
    }

    /// The active display mode.
    pub fn mode(&self) -> (r: EnvDisplayMode)
        ensures
            r == self@.mode,
    {
        self.mode
    }

    /// Whether a name should be redacted in `filtered` mode.
    ///
    /// Priority: explicit visible > explicit sensitive > built-in pattern match.
    pub fn should_redact(&self, name: &str) -> (r: bool)
        ensures
            r == self@.redacts(name@),
    {
        let lower = string_of(&ascii_lowercase(name));
        if contains_name(&self.visible_names, &lower) {
            return false;
        }
        if contains_name(&self.sensitive_names, &lower) {
            return true;
        }
        matches_sensitive_pattern(lower.as_str())
    }

    /// Names in the user-configured sensitive list, each once.
    pub fn custom_sensitive_names(&self) -> (r: &Vec<String>)
        ensures
            names_view(r@).no_duplicates(),
            names_view(r@).to_set() == self@.sensitive,
    {
        proof {
            use_type_invariant(self);
        }
        &self.sensitive_names
    }

    /// Names in the user-configured visible list, each once.
    pub fn custom_visible_names(&self) -> (r: &Vec<String>)
        ensures
            names_view(r@).no_duplicates(),
            names_view(r@).to_set() == self@.visible,
    {
        proof {
            use_type_invariant(self);
        }
        &self.visible_names
    }
}

// ── Sensitivity patterns ────────────────────────────────────────────────────

/// Lowercase substrings that indicate a sensitive variable.
pub open spec fn sensitive_substrings() -> Seq<Seq<char>> {
    seq![
        "password"@,
        "passwd"@,
        "secret"@,
        "token"@,
        "credential"@,
        "private_key"@,
        "api_key"@,
        "database_url"@,
        "connection_string"@,
    ]
}

/// Lowercase suffixes that indicate a sensitive variable.
pub open spec fn sensitive_suffixes() -> Seq<Seq<char>> {
    seq!["_key"@, "_dsn"@]
}

/// A (lowercase) name matches a built-in sensitive pattern: it contains one
/// of the sensitive substrings or ends with one of the sensitive suffixes.
pub open spec fn sensitive_pattern(lower: Seq<char>) -> bool {
    ||| exists|i: int| 0 <= i < sensitive_substrings().len() && has_infix(lower, #[trigger] sensitive_substrings()[i])
    ||| exists|i: int| 0 <= i < sensitive_suffixes().len() && has_suffix(lower, #[trigger] sensitive_suffixes()[i])
}

/// The views of a list of string slices.
pub open spec fn strs_view(v: Seq<&str>) -> Seq<Seq<char>> {
    v.map_values(|s: &str| s@)
}

fn substring_patterns() -> (r: Vec<&'static str>)
    ensures
        strs_view(r@) == sensitive_substrings(),
{
    let mut r: Vec<&'static str> = Vec::new();
    r.push("password");
    r.push("passwd");
    r.push("secret");
    r.push("token");
    r.push("credential");
    r.push("private_key");
    r.push("api_key");
    r.push("database_url");
    r.push("connection_string");
    assert(strs_view(r@) =~= sensitive_substrings());
    r
}

fn suffix_patterns() -> (r: Vec<&'static str>)
    ensures
        strs_view(r@) == sensitive_suffixes(),
{
    let mut r: Vec<&'static str> = Vec::new();
    r.push("_key");
    r.push("_dsn");
    assert(strs_view(r@) =~= sensitive_suffixes());
    r
}

/// Returns `true` if `lower` matches a built-in sensitive pattern.
///
/// Expects a **lowercase** input.
pub fn matches_sensitive_pattern(lower: &str) -> (r: bool)
    ensures
        r == sensitive_pattern(lower@),
{
    let v = chars_of(lower);
    let subs = substring_patterns();
    let mut i: usize = 0;
    while i < subs.len()
        invariant
            i <= subs@.len(),
            v@ == lower@,
            strs_view(subs@) == sensitive_substrings(),
            forall|k: int| 0 <= k < i ==> !has_infix(v@, #[trigger] sensitive_substrings()[k]),
        decreases subs@.len() - i,
    {
        let p = chars_of(subs[i]);
        assert(p@ == sensitive_substrings()[i as int]);
        if contains_chars(&v, &p) {
            return true;
        }
        i = i + 1;
    }
    let sufs = suffix_patterns();
    let mut j: usize = 0;
    while j < sufs.len()
        invariant
            j <= sufs@.len(),
            v@ == lower@,
            strs_view(sufs@) == sensitive_suffixes(),
            forall|k: int| 0 <= k < j ==> !has_suffix(v@, #[trigger] sensitive_suffixes()[k]),
        decreases sufs@.len() - j,
    {
        let p = chars_of(sufs[j]);
        assert(p@ == sensitive_suffixes()[j as int]);
        if ends_with_chars(&v, &p) {
            return true;
        }
        j = j + 1;
    }
    false
}


// ── Redaction ───────────────────────────────────────────────────────────────

/// The text that replaces every value in `masked` mode.
pub open spec fn masked_text() -> Seq<char> {
    "[MASKED]"@
}

/// The text that replaces a sensitive value in `filtered` mode.
pub open spec fn redacted_text() -> Seq<char> {
    "[REDACTED]"@
}

/// Whether `filtered` mode hides the value of `var`: a variable without a
/// name is assumed sensitive.
pub open spec fn hides(cfg: RedactConfigView, var: EnvVarView) -> bool {
    match var.name {
        Some(name) => cfg.redacts(name),
        None => true,
    }
}

/// An environment variable as it is shown under `cfg`.
pub open spec fn redact_var(cfg: RedactConfigView, var: EnvVarView) -> EnvVarView {
    match cfg.mode {
        EnvDisplayMode::Full => var,
        EnvDisplayMode::Masked => EnvVarView { name: var.name, value: Some(masked_text()) },
        EnvDisplayMode::Filtered => if hides(cfg, var) {
            EnvVarView { name: var.name, value: Some(redacted_text()) }
        } else {
            var
        },
    }
}

/// A stack as it is shown under `cfg`: each environment variable redacted,
/// everything else unchanged.
pub open spec fn redacted_stack(cfg: RedactConfigView, s: StackView) -> StackView {
    StackView { env: s.env.map_values(|v: EnvVarView| redact_var(cfg, v)), ..s }
}

/// Changing one variable's value changes only that entry of the view.
proof fn lemma_env_update(before: Seq<EnvVar>, after: Seq<EnvVar>, i: int)
    requires
        0 <= i < before.len(),
        after.len() == before.len(),
        forall|k: int| 0 <= k < before.len() && k != i ==> after[k] == before[k],
        after[i].name == before[i].name,
    ensures
        env_view(after).len() == env_view(before).len(),
        forall|k: int| 0 <= k < before.len() && k != i ==> #[trigger] env_view(after)[k] == env_view(before)[k],
        env_view(after)[i].name == env_view(before)[i].name,
        env_view(after)[i].value == after[i].value.deep_view(),
{
}

/// Redact environment variable values in a single stack.
pub fn redact_stack(stack: &mut Stack, config: &RedactConfig)
    ensures
        final(stack)@ == redacted_stack(config@, old(stack)@),
{
    let ghost s0 = stack@;
    let n = stack.env.len();
    match config.mode() {
        EnvDisplayMode::Full => {
            assert(s0.env.map_values(|v: EnvVarView| redact_var(config@, v)) =~= s0.env);
        },
        EnvDisplayMode::Masked => {
            let mut i: usize = 0;
            while i < n
                invariant
                    i <= n == stack.env@.len(),
                    config@.mode == EnvDisplayMode::Masked,
                    stack@ == (StackView { env: stack@.env, ..s0 }),
                    stack@.env.len() == s0.env.len(),
                    forall|k: int| 0 <= k < i ==> #[trigger] stack@.env[k] == redact_var(config@, s0.env[k]),
                    forall|k: int| i <= k < n ==> #[trigger] stack@.env[k] == s0.env[k],
                decreases n - i,
            {
                let ghost before = stack.env@;
                let ghost before_view = stack@.env;
                stack.env[i].value = Some(owned("[MASKED]"));
                proof {
                    lemma_env_update(before, stack.env@, i as int);
                    assert(stack@.env[i as int] == redact_var(config@, s0.env[i as int]));
                    assert forall|k: int| 0 <= k < n && k != i implies #[trigger] stack@.env[k]
                        == before_view[k] by {}
                }
                i = i + 1;
            }
            assert(stack@.env =~= s0.env.map_values(|v: EnvVarView| redact_var(config@, v)));
        },
        EnvDisplayMode::Filtered => {
            let mut i: usize = 0;
            while i < n
                invariant
                    i <= n == stack.env@.len(),
                    config@.mode == EnvDisplayMode::Filtered,
                    stack@ == (StackView { env: stack@.env, ..s0 }),
                    stack@.env.len() == s0.env.len(),
                    forall|k: int| 0 <= k < i ==> #[trigger] stack@.env[k] == redact_var(config@, s0.env[k]),
                    forall|k: int| i <= k < n ==> #[trigger] stack@.env[k] == s0.env[k],
                decreases n - i,
            {
                let hide = match &stack.env[i].name {
                    Some(name) => config.should_redact(name.as_str()),
                    None => true,  // unknown name — assume sensitive
                };
                let ghost before = stack.env@;
                let ghost before_view = stack@.env;
                if hide {
                    stack.env[i].value = Some(owned("[REDACTED]"));
                    proof {
                        lemma_env_update(before, stack.env@, i as int);
                    }
                }
                proof {
                    assert(stack@.env[i as int] == redact_var(config@, s0.env[i as int]));
                    assert forall|k: int| 0 <= k < n && k != i implies #[trigger] stack@.env[k]
                        == before_view[k] by {}
                }
                i = i + 1;
            }
            assert(stack@.env =~= s0.env.map_values(|v: EnvVarView| redact_var(config@, v)));
        },
    }
}

/// Redact environment variable values in a list of stacks.
pub fn redact_stacks(stacks: &mut [Stack], config: &RedactConfig)
    ensures
        stacks_view(final(stacks)@) == stacks_view(old(stacks)@).map_values(
            |s: StackView| redacted_stack(config@, s),
        ),
{
    let ghost s0 = stacks_view(stacks@);
    if config.mode() == EnvDisplayMode::Full {
        proof {
            assert forall|k: int| 0 <= k < s0.len() implies #[trigger] redacted_stack(config@, s0[k]) == s0[k] by {
                assert(s0[k].env.map_values(|v: EnvVarView| redact_var(config@, v)) =~= s0[k].env);
            }
        }
        assert(s0.map_values(|s: StackView| redacted_stack(config@, s)) =~= s0);
        return;
    }
    let n = stacks.len();
    let mut i: usize = 0;
    while i < n
        invariant
            i <= n == stacks@.len(),
            stacks_view(stacks@).len() == s0.len(),
            forall|k: int| 0 <= k < i ==> #[trigger] stacks_view(stacks@)[k] == redacted_stack(config@, s0[k]),
            forall|k: int| i <= k < n ==> #[trigger] stacks_view(stacks@)[k] == s0[k],
        decreases n - i,
    {
        let ghost before = stacks@;
        assert(stacks_view(before)[i as int] == s0[i as int]);
        redact_stack(&mut stacks[i], config);
        proof {
            assert(stacks_view(stacks@)[i as int] == stacks@[i as int]@);
            assert(before[i as int]@ == s0[i as int]);
            assert forall|k: int| 0 <= k < n && k != i implies #[trigger] stacks_view(stacks@)[k]
                == stacks_view(before)[k] by {
                assert(stacks@[k] == before[k]);
            }
        }
        i = i + 1;
    }
    assert(stacks_view(stacks@) =~= s0.map_values(|s: StackView| redacted_stack(config@, s)));
}


// ── Properties ──────────────────────────────────────────────────────────────

/// Redacting a stack a second time changes nothing: the values that were
/// replaced carry the replacement text already, and the decision depends on
/// names only, which redaction keeps.
pub proof fn lemma_redact_idempotent(cfg: RedactConfigView, s: StackView)
    ensures
        redacted_stack(cfg, redacted_stack(cfg, s)) == redacted_stack(cfg, s),
{
    let once = redacted_stack(cfg, s);
    let twice = redacted_stack(cfg, once);
    assert forall|k: int| 0 <= k < s.env.len() implies #[trigger] twice.env[k] == once.env[k] by {
        let v = s.env[k];
        let w = redact_var(cfg, v);
        assert(once.env[k] == w);
        assert(hides(cfg, w) == hides(cfg, v));
    }
    assert(twice.env =~= once.env);
}

/// Redaction keeps every stack field but the environment values: the same
/// variables, in the same order, with the same names.
pub proof fn lemma_redact_keeps_shape(cfg: RedactConfigView, s: StackView)
    ensures
        redacted_stack(cfg, s) == (StackView { env: redacted_stack(cfg, s).env, ..s }),
        redacted_stack(cfg, s).env.len() == s.env.len(),
        forall|k: int| 0 <= k < s.env.len() ==> (#[trigger] redacted_stack(cfg, s).env[k]).name == s.env[k].name,
{
}

/// In `masked` mode every value reads `[MASKED]`.
pub proof fn lemma_masked_hides_all(cfg: RedactConfigView, s: StackView)
    requires
        cfg.mode == EnvDisplayMode::Masked,
    ensures
        forall|k: int| 0 <= k < s.env.len() ==> (#[trigger] redacted_stack(cfg, s).env[k]).value == Some(masked_text()),
{
}

/// In `full` mode a stack is shown unchanged.
pub proof fn lemma_full_shows_all(cfg: RedactConfigView, s: StackView)
    requires
        cfg.mode == EnvDisplayMode::Full,
    ensures
        redacted_stack(cfg, s) == s,
{
    assert(s.env.map_values(|v: EnvVarView| redact_var(cfg, v)) =~= s.env);
}

/// In `filtered` mode a value reads `[REDACTED]` exactly when its variable
/// is unnamed or its name is redacted; every other value is kept.
pub proof fn lemma_filtered_redacts_sensitive_only(cfg: RedactConfigView, s: StackView)
    requires
        cfg.mode == EnvDisplayMode::Filtered,
    ensures
        forall|k: int|
            0 <= k < s.env.len() ==> (#[trigger] redacted_stack(cfg, s).env[k]).value == if hides(
                cfg,
                s.env[k],
            ) {
                Some(redacted_text())
            } else {
                s.env[k].value
            },
{
}

/// ASCII lowercasing twice is lowercasing once.
pub proof fn lemma_ascii_lower_idempotent(s: Seq<char>)
    ensures
        ascii_lower(ascii_lower(s)) == ascii_lower(s),
{
    assert(ascii_lower(ascii_lower(s)) =~= ascii_lower(s));
}

/// Names are matched without regard to ASCII letter case: two names with
/// the same lowercase form are both redacted or both shown.
pub proof fn lemma_redacts_ignores_case(cfg: RedactConfigView, a: Seq<char>, b: Seq<char>)
    requires
        ascii_lower(a) == ascii_lower(b),
    ensures
        cfg.redacts(a) == cfg.redacts(b),
{
}

/// A name in the visible list is never redacted, whatever the other lists
/// and patterns say; a name in the sensitive list and not in the visible
/// list is always redacted.
pub proof fn lemma_override_priority(cfg: RedactConfigView, name: Seq<char>)
    ensures
        cfg.visible.contains(ascii_lower(name)) ==> !cfg.redacts(name),
        !cfg.visible.contains(ascii_lower(name)) && cfg.sensitive.contains(ascii_lower(name))
            ==> cfg.redacts(name),
        !cfg.visible.contains(ascii_lower(name)) && !cfg.sensitive.contains(ascii_lower(name))
            ==> (cfg.redacts(name) == sensitive_pattern(ascii_lower(name))),
{
}

/// Reading a mode's own label back selects that mode.
pub proof fn lemma_label_selects_mode(m: EnvDisplayMode)
    ensures
        mode_of_setting(m.label_text()) == m,
{
    reveal_strlit("masked");
    reveal_strlit("filtered");
    reveal_strlit("full");
    let l = m.label_text();
    assert(ascii_lower(l) =~= l);
    if m != EnvDisplayMode::Filtered {
        assert(l.len() != 8 || l[0] != 'f' || l[1] != 'i');
    }
}


/// A name belongs to `names_of(pieces)` exactly when it is non-empty and is
/// the cleaned form of one of the pieces.
pub proof fn lemma_names_of_members(pieces: Seq<Seq<char>>, n: Seq<char>)
    ensures
        names_of(pieces).contains(n) <==> (n.len() > 0 && exists|i: int|
            0 <= i < pieces.len() && #[trigger] clean_name(pieces[i]) == n),
    decreases pieces.len(),
{
    if pieces.len() > 0 {
        let rest = pieces.drop_last();
        lemma_names_of_members(rest, n);
        if names_of(pieces).contains(n) {
            if !names_of(rest).contains(n) {
                assert(clean_name(pieces[pieces.len() - 1]) == n);
            } else {
                let i = choose|i: int| 0 <= i < rest.len() && #[trigger] clean_name(rest[i]) == n;
                assert(clean_name(pieces[i]) == n);
            }
        }
        if n.len() > 0 && exists|i: int| 0 <= i < pieces.len() && #[trigger] clean_name(pieces[i]) == n {
            let i = choose|i: int| 0 <= i < pieces.len() && #[trigger] clean_name(pieces[i]) == n;
            if i < pieces.len() - 1 {
                assert(clean_name(rest[i]) == n);
            }
        }
    }
}

/// Dropping trailing whitespace keeps a prefix, ending in a non-space.
proof fn lemma_trim_end_prefix(s: Seq<char>)
    ensures
        trim_end_ws(s).len() <= s.len(),
        trim_end_ws(s) == s.subrange(0, trim_end_ws(s).len() as int),
        trim_end_ws(s).len() > 0 ==> !is_ws(trim_end_ws(s).last()),
    decreases s.len(),
{
    if s.len() > 0 && is_ws(s.last()) {
        lemma_trim_end_prefix(s.drop_last());
        assert(s.drop_last().subrange(0, trim_end_ws(s).len() as int) == s.subrange(
            0,
            trim_end_ws(s).len() as int,
        ));
    } else {
        assert(s.subrange(0, s.len() as int) == s);
    }
}

/// After dropping leading whitespace, the first character is not a space.
proof fn lemma_trim_start_first(s: Seq<char>)
    ensures
        trim_start_ws(s).len() > 0 ==> !is_ws(trim_start_ws(s)[0]),
    decreases s.len(),
{
    if s.len() > 0 && is_ws(s[0]) {
        lemma_trim_start_first(s.drop_first());
    }
}

/// A cleaned name is its own cleaned form: it is in ASCII lowercase and
/// has no leading or trailing whitespace.
pub proof fn lemma_clean_name_is_normal(piece: Seq<char>)
    ensures
        ascii_lower(clean_name(piece)) == clean_name(piece),
        trim_ws(clean_name(piece)) == clean_name(piece),
        clean_name(clean_name(piece)) == clean_name(piece),
{
    let t = trim_ws(piece);
    let c = clean_name(piece);
    lemma_ascii_lower_idempotent(trim_ws(piece));
    lemma_trim_start_first(piece);
    lemma_trim_end_prefix(trim_start_ws(piece));
    assert(c.len() == t.len());
    assert forall|k: int| 0 <= k < t.len() implies is_ws(#[trigger] c[k]) == is_ws(t[k]) by {
        assert(c[k] == crate::text::lower_char(t[k]));
    }
    if c.len() > 0 {
        assert(t[0] == trim_start_ws(piece)[0]);
        assert(!is_ws(c[0]));
        assert(!is_ws(c.last()));
        assert(trim_start_ws(c) == c);
        assert(trim_end_ws(c) == c);
    } else {
        assert(trim_start_ws(c) == c);
        assert(trim_end_ws(c) == c);
    }
}

/// The names of a comma-separated setting are exactly the non-empty
/// cleaned pieces, and each is non-empty, in ASCII lowercase and trimmed.
pub proof fn lemma_name_list_members(raw: Seq<char>, n: Seq<char>)
    ensures
        name_list(raw).contains(n) <==> (n.len() > 0 && exists|i: int|
            0 <= i < split_on(raw, ',').len() && #[trigger] clean_name(split_on(raw, ',')[i]) == n),
        name_list(raw).contains(n) ==> n.len() > 0 && ascii_lower(n) == n && trim_ws(n) == n,
{
    lemma_names_of_members(split_on(raw, ','), n);
    if name_list(raw).contains(n) {
        let i = choose|i: int|
            0 <= i < split_on(raw, ',').len() && #[trigger] clean_name(split_on(raw, ',')[i]) == n;
        lemma_clean_name_is_normal(split_on(raw, ',')[i]);
    }
}


/// The built-in patterns are exactly the documented ones: a lowercase name
/// matches when it contains `password`, `passwd`, `secret`, `token`,
/// `credential`, `private_key`, `api_key`, `database_url` or
/// `connection_string` anywhere (its start included), or ends with `_key`
/// or `_dsn`, and in no other case.
pub proof fn lemma_sensitive_pattern_documented(s: Seq<char>)
    ensures
        sensitive_pattern(s) <==> {
            ||| has_infix(s, "password"@)
            ||| has_infix(s, "passwd"@)
            ||| has_infix(s, "secret"@)
            ||| has_infix(s, "token"@)
            ||| has_infix(s, "credential"@)
            ||| has_infix(s, "private_key"@)
            ||| has_infix(s, "api_key"@)
            ||| has_infix(s, "database_url"@)
            ||| has_infix(s, "connection_string"@)
            ||| has_suffix(s, "_key"@)
            ||| has_suffix(s, "_dsn"@)
        },
{
    let subs = sensitive_substrings();
    let sufs = sensitive_suffixes();
    assert(subs[0] == "password"@);
    assert(subs[1] == "passwd"@);
    assert(subs[2] == "secret"@);
    assert(subs[3] == "token"@);
    assert(subs[4] == "credential"@);
    assert(subs[5] == "private_key"@);
    assert(subs[6] == "api_key"@);
    assert(subs[7] == "database_url"@);
    assert(subs[8] == "connection_string"@);
    assert(sufs[0] == "_key"@);
    assert(sufs[1] == "_dsn"@);
    assert(subs.len() == 9 && sufs.len() == 2);
}

/// The display mode depends on the setting only through its ASCII
/// lowercase form: `FULL`, `Full` and `full` select the same mode.
pub proof fn lemma_mode_ignores_case(a: Seq<char>, b: Seq<char>)
    requires
        ascii_lower(a) == ascii_lower(b),
    ensures
        mode_of_setting(a) == mode_of_setting(b),
{
}

/// Any letter-case spelling of `filtered` or `full` selects that mode.
pub proof fn lemma_mode_spellings(value: Seq<char>)
    ensures
        ascii_lower(value) == "filtered"@ ==> mode_of_setting(value) == EnvDisplayMode::Filtered,
        ascii_lower(value) == "full"@ ==> mode_of_setting(value) == EnvDisplayMode::Full,
        ascii_lower(value) != "filtered"@ && ascii_lower(value) != "full"@ ==> mode_of_setting(value)
            == EnvDisplayMode::Masked,
{
    reveal_strlit("filtered");
    reveal_strlit("full");
    assert("filtered"@ != "full"@) by {
        assert("filtered"@.len() != "full"@.len());
    }
}

/// The pieces joined back together with `sep` between them.
pub open spec fn join_with(pieces: Seq<Seq<char>>, sep: char) -> Seq<char>
    decreases pieces.len(),
{
    if pieces.len() == 0 {
        Seq::empty()
    } else if pieces.len() == 1 {
        pieces[0]
    } else {
        join_with(pieces.drop_last(), sep) + seq![sep] + pieces.last()
    }
}

/// `split_on` is `str::split`: it gives at least one piece, no piece holds
/// the separator, and joining the pieces with the separator between them
/// gives back the text.
pub proof fn lemma_split_on_splits(s: Seq<char>, sep: char)
    ensures
        split_on(s, sep).len() >= 1,
        join_with(split_on(s, sep), sep) == s,
        forall|i: int| 0 <= i < split_on(s, sep).len() ==> !(#[trigger] split_on(s, sep)[i]).contains(sep),
    decreases s.len(),
{
    if s.len() == 0 {
        assert(split_on(s, sep) =~= seq![Seq::<char>::empty()]);
        assert(s =~= Seq::<char>::empty());
    } else {
        let t = s.drop_last();
        let c = s.last();
        let r = split_on(t, sep);
        lemma_split_on_splits(t, sep);
        assert(t.push(c) =~= s);
        if c == sep {
            let q = r.push(Seq::<char>::empty());
            assert(split_on(s, sep) == q);
            assert(q.drop_last() =~= r);
            assert(join_with(q, sep) =~= s);
            assert forall|i: int| 0 <= i < q.len() implies !(#[trigger] q[i]).contains(sep) by {
                if i < r.len() {
                    assert(q[i] == r[i]);
                }
            }
        } else {
            let last = r.last().push(c);
            let q = r.update(r.len() - 1, last);
            assert(split_on(s, sep) == q);
            if r.len() == 1 {
                assert(join_with(q, sep) == q[0]);
                assert(join_with(q, sep) =~= s);
            } else {
                assert(q.drop_last() =~= r.drop_last());
                assert(join_with(r, sep) == join_with(r.drop_last(), sep) + seq![sep] + r.last());
                assert(join_with(q, sep) =~= s);
            }
            assert forall|i: int| 0 <= i < q.len() implies !(#[trigger] q[i]).contains(sep) by {
                if i < r.len() - 1 {
                    assert(q[i] == r[i]);
                } else {
                    assert(!r[i].contains(sep));
                    if last.contains(sep) {
                        let k = choose|k: int| 0 <= k < last.len() && last[k] == sep;
                        if k < r.last().len() {
                            assert(r.last()[k] == sep);
                        }
                    }
                }
            }
        }
    }
}

/// Every piece of a setting whose cleaned form is not empty is among the
/// listed names: no piece is skipped.
pub proof fn lemma_every_piece_listed(raw: Seq<char>, i: int)
    requires
        0 <= i < split_on(raw, ',').len(),
        clean_name(split_on(raw, ',')[i]).len() > 0,
    ensures
        name_list(raw).contains(clean_name(split_on(raw, ',')[i])),
{
    lemma_name_list_members(raw, clean_name(split_on(raw, ',')[i]));
}

} // verus!
