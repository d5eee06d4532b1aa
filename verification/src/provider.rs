//! Provider profiles and the configuration file the setup wizard writes, plus
//! the provider-name and base-URL rules.

use vstd::prelude::*;
use crate::text::{
    ascii_lower_chars, ascii_lower_seq, char_is_white_space, chars_equal, chars_of, copy_range,
    is_white_space, lemma_lex_irreflexive, lemma_lex_total, lemma_lex_transitive, lex_lt,
    string_from_chars, string_lex_less, trim, trim_chars,
};

verus! {

/// The provider name reserved for GitHub Copilot.
pub const RESERVED_COPILOT_PROVIDER_NAME: &'static str = "copilot";

/// The reserved name as characters.
pub open spec fn copilot_name() -> Seq<char> {
    seq!['c', 'o', 'p', 'i', 'l', 'o', 't']
}

pub fn copilot_name_chars() -> (r: Vec<char>)
    ensures
        r@ == copilot_name(),
{
    vec!['c', 'o', 'p', 'i', 'l', 'o', 't']
}

/// The wire API a new profile uses unless told otherwise.
pub open spec fn completions_name() -> Seq<char> {
    seq!['c', 'o', 'm', 'p', 'l', 'e', 't', 'i', 'o', 'n', 's']
}

pub open spec fn responses_name() -> Seq<char> {
    seq!['r', 'e', 's', 'p', 'o', 'n', 's', 'e', 's']
}

/// One OpenAI-compatible provider endpoint.
pub struct ProviderProfile {
    pub base_url: String,
    pub wire_api: String,
    pub api_key: Option<String>,
}

/// What a profile holds, as plain sequences.
pub struct ProfileView {
    pub base_url: Seq<char>,
    pub wire_api: Seq<char>,
    pub api_key: Option<Seq<char>>,
}

impl View for ProviderProfile {
    type V = ProfileView;

    open spec fn view(&self) -> ProfileView {
        ProfileView {
            base_url: self.base_url@,
            wire_api: self.wire_api@,
            api_key: self.api_key.deep_view(),
        }
    }
}

fn copy_optional_string(value: &Option<String>) -> (r: Option<String>)
    ensures
        r.deep_view() == value.deep_view(),
{
    match value {
        Some(v) => Some(v.clone()),
        None => None,
    }
}

impl ProviderProfile {
    /// A profile for `base_url` speaking the `completions` wire API, with no API key.
    pub fn new(base_url: &str) -> (r: Self)
        ensures
            r@ == (ProfileView { base_url: base_url@, wire_api: completions_name(), api_key: None }),
    {
        let wire_api = vec!['c', 'o', 'm', 'p', 'l', 'e', 't', 'i', 'o', 'n', 's'];
        ProviderProfile {
            base_url: base_url.to_owned(),
            wire_api: string_from_chars(wire_api.as_slice()),
            api_key: None,
        }
    }

    /// A copy of this profile.
    pub fn copied(&self) -> (r: Self)
        ensures
            r@ == self@,
    {
        ProviderProfile {
            base_url: self.base_url.clone(),
            wire_api: self.wire_api.clone(),
            api_key: copy_optional_string(&self.api_key),
        }
    }
}

/// Remembered Copilot defaults.
pub struct CopilotDefaults {
    pub default_model: Option<String>,
}

impl View for CopilotDefaults {
    type V = Option<Seq<char>>;

    open spec fn view(&self) -> Option<Seq<char>> {
        self.default_model.deep_view()
    }
}

impl CopilotDefaults {
    /// No remembered defaults.
    pub fn empty() -> (r: Self)
        ensures
            r@ == None::<Seq<char>>,
    {
        CopilotDefaults { default_model: None }
    }

    pub fn copied(&self) -> (r: Self)
        ensures
            r@ == self@,
    {
        CopilotDefaults { default_model: copy_optional_string(&self.default_model) }
    }
}

pub open spec fn copilot_view(c: Option<CopilotDefaults>) -> Option<Option<Seq<char>>> {
    match c {
        Some(d) => Some(d@),
        None => None,
    }
}

pub fn copy_copilot(c: &Option<CopilotDefaults>) -> (r: Option<CopilotDefaults>)
    ensures
        copilot_view(r) == copilot_view(*c),
{
    match c {
        Some(d) => Some(d.copied()),
        None => None,
    }
}

/// Provider profiles keyed by name, kept in ascending name order with each name once.
/// They live in a sorted vector rather than a `BTreeMap`: vstd states what a
/// `BTreeMap` does only for keys whose ordering it knows, and `String` is not one of
/// them, so nothing could be proved of such a map keyed by name.
pub struct ProviderMap {
    entries: Vec<(String, ProviderProfile)>,
}

pub open spec fn entry_view(e: (String, ProviderProfile)) -> (Seq<char>, ProfileView) {
    (e.0@, e.1@)
}

/// The views of a sequence of named profiles.
pub open spec fn views_of(v: Seq<(String, ProviderProfile)>) -> Seq<(Seq<char>, ProfileView)> {
    v.map_values(|e: (String, ProviderProfile)| entry_view(e))
}

/// Strictly ascending names.
pub open spec fn sorted_names(s: Seq<(Seq<char>, ProfileView)>) -> bool {
    forall|i: int, j: int| 0 <= i < j < s.len() ==> lex_lt(#[trigger] s[i].0, #[trigger] s[j].0)
}

pub open spec fn has_name(s: Seq<(Seq<char>, ProfileView)>, k: Seq<char>) -> bool {
    exists|i: int| 0 <= i < s.len() && #[trigger] s[i].0 == k
}

/// Where `k` sits among the entries (meaningful when it is there).
pub open spec fn index_of_name(s: Seq<(Seq<char>, ProfileView)>, k: Seq<char>) -> int {
    choose|i: int| 0 <= i < s.len() && #[trigger] s[i].0 == k
}

/// The map a sequence of named entries stands for.
pub open spec fn map_of(s: Seq<(Seq<char>, ProfileView)>) -> Map<Seq<char>, ProfileView> {
    Map::new(|k: Seq<char>| has_name(s, k), |k: Seq<char>| s[index_of_name(s, k)].1)
}

pub proof fn lemma_sorted_unique(s: Seq<(Seq<char>, ProfileView)>, i: int, j: int)
    requires
        sorted_names(s),
        0 <= i < s.len(),
        0 <= j < s.len(),
        s[i].0 == s[j].0,
    ensures
        i == j,
{
    if i < j {
        assert(lex_lt(s[i].0, s[j].0));
        lemma_lex_irreflexive(s[i].0);
    } else if j < i {
        assert(lex_lt(s[j].0, s[i].0));
        lemma_lex_irreflexive(s[i].0);
    }
}

pub proof fn lemma_map_of_at(s: Seq<(Seq<char>, ProfileView)>, i: int)
    requires
        sorted_names(s),
        0 <= i < s.len(),
    ensures
        map_of(s).dom().contains(s[i].0),
        map_of(s)[s[i].0] == s[i].1,
{
    let k = s[i].0;
    assert(has_name(s, k));
    let j = index_of_name(s, k);
    lemma_sorted_unique(s, i, j);
    assert(map_of(s)[k] == s[j].1);
}

impl ProviderMap {
    #[verifier::type_invariant]
    spec fn names_ascending(&self) -> bool {
        sorted_names(views_of(self.entries@))
    }

    /// The entries in ascending name order.
    pub closed spec fn entries_view(&self) -> Seq<(Seq<char>, ProfileView)> {
        views_of(self.entries@)
    }

    /// An empty map.
    pub fn new() -> (r: Self)
        ensures
            r@ == Map::<Seq<char>, ProfileView>::empty(),
            r.entries_view().len() == 0,
    {
        let r = ProviderMap { entries: Vec::new() };
        assert(r@ =~= Map::<Seq<char>, ProfileView>::empty());
        r
    }

    pub fn len(&self) -> (n: usize)
        ensures
            n == self.entries_view().len(),
            n == self@.dom().len(),
    {
        proof {
            use_type_invariant(self);
            self.lemma_dom_len();
        }
        self.entries.len()
    }

    proof fn lemma_dom_len(&self)
        requires
            sorted_names(self.entries_view()),
        ensures
            self@.dom().finite(),
            self@.dom().len() == self.entries_view().len(),
    {
        let s = self.entries_view();
        let keys = s.map_values(|e: (Seq<char>, ProfileView)| e.0);
        assert forall|i: int, j: int| 0 <= i < keys.len() && 0 <= j < keys.len() && i != j implies keys[i] != keys[j] by {
            if keys[i] == keys[j] {
                lemma_sorted_unique(s, i, j);
            }
        }
        keys.unique_seq_to_set();
        assert(self@.dom() =~= keys.to_set()) by {
            assert forall|k: Seq<char>| self@.dom().contains(k) implies keys.to_set().contains(k) by {
                let i = choose|i: int| 0 <= i < s.len() && #[trigger] s[i].0 == k;
                assert(keys[i] == k);
            }
            assert forall|k: Seq<char>| keys.to_set().contains(k) implies self@.dom().contains(k) by {
                let i = choose|i: int| 0 <= i < keys.len() && #[trigger] keys[i] == k;
                assert(s[i].0 == k);
            }
        }
    }

    pub fn is_empty(&self) -> (b: bool)
        ensures
            b == (self@.dom().len() == 0),
            b == (self@ == Map::<Seq<char>, ProfileView>::empty()),
    {
        let n = self.len();
        if n != 0 {
            proof {
                let s = self.entries_view();
                assert(self@.dom().contains(s[0].0));
            }
        } else {
            assert(self@ =~= Map::<Seq<char>, ProfileView>::empty());
        }
        n == 0
    }

    /// Index of `name` among the entries, if present.
    fn position(&self, name: &String) -> (r: Option<usize>)
        ensures
            r matches Some(i) ==> i < self.entries_view().len() && self.entries_view()[i as int].0
                == name@,
            r is None ==> !self@.dom().contains(name@),
    {
        let mut i: usize = 0;
        while i < self.entries.len()
            invariant
                i <= self.entries@.len(),
                forall|j: int| 0 <= j < i ==> #[trigger] self.entries_view()[j].0 != name@,
            decreases self.entries@.len() - i,
        {
            if self.entries[i].0 == *name {
                return Some(i);
            }
            i += 1;
        }
        None
    }

    pub fn contains_key(&self, name: &str) -> (b: bool)
        ensures
            b == self@.dom().contains(name@),
    {
        let key = name.to_owned();
        self.position(&key).is_some()
    }

    pub fn get(&self, name: &str) -> (r: Option<&ProviderProfile>)
        ensures
            r is Some <==> self@.dom().contains(name@),
            r matches Some(p) ==> self@[name@] == p@,
    {
        proof {
            use_type_invariant(self);
        }
        let key = name.to_owned();
        match self.position(&key) {
            Some(i) => {
                proof {
                    lemma_map_of_at(self.entries_view(), i as int);
                }
                Some(&self.entries[i].1)
            },
            None => None,
        }
    }

    /// The entries, in ascending name order.
    pub fn entries(&self) -> (r: &Vec<(String, ProviderProfile)>)
        ensures
            views_of(r@) == self.entries_view(),
    {
        &self.entries
    }

    /// Sets the profile stored under `name`, replacing any earlier one.
    pub fn insert(&mut self, name: String, profile: ProviderProfile)
        ensures
            final(self)@ == old(self)@.insert(name@, profile@),
    {
        proof {
            use_type_invariant(&*self);
        }
        let ghost old_s = self.entries_view();
        let mut i: usize = 0;
        while i < self.entries.len() && string_lex_less(&self.entries[i].0, &name)
            invariant
                i <= self.entries@.len(),
                self.entries_view() == old_s,
                sorted_names(old_s),
                forall|j: int| 0 <= j < i ==> lex_lt(#[trigger] old_s[j].0, name@),
            decreases self.entries@.len() - i,
        {
            i += 1;
        }
        let ghost new_entry = (name@, profile@);
        if i < self.entries.len() && self.entries[i].0 == name {
            let ghost k = name@;
            let mut entries: Vec<(String, ProviderProfile)> = Vec::new();
            std::mem::swap(&mut entries, &mut self.entries);
            entries.set(i, (name, profile));
            let ghost new_s = views_of(entries@);
            proof {
                assert(new_s =~= old_s.update(i as int, new_entry));
                assert forall|a: int, b: int| 0 <= a < b < new_s.len() implies lex_lt(
                    #[trigger] new_s[a].0,
                    #[trigger] new_s[b].0,
                ) by {
                    assert(lex_lt(old_s[a].0, old_s[b].0));
                }
                self.lemma_update_map(old_s, new_s, i as int, new_entry);
            }
            self.entries = entries;
        } else {
            let mut entries: Vec<(String, ProviderProfile)> = Vec::new();
            std::mem::swap(&mut entries, &mut self.entries);
            entries.insert(i, (name, profile));
            let ghost new_s = views_of(entries@);
            proof {
                assert(new_s =~= old_s.insert(i as int, new_entry));
                if i < old_s.len() {
                    assert(old_s[i as int].0 != new_entry.0);
                    lemma_lex_total(old_s[i as int].0, new_entry.0);
                }
                assert forall|j: int| i <= j < old_s.len() implies lex_lt(
                    new_entry.0,
                    #[trigger] old_s[j].0,
                ) by {
                    if j > i {
                        assert(lex_lt(old_s[i as int].0, old_s[j].0));
                        lemma_lex_transitive(new_entry.0, old_s[i as int].0, old_s[j].0);
                    }
                }
                assert forall|a: int, b: int| 0 <= a < b < new_s.len() implies lex_lt(
                    #[trigger] new_s[a].0,
                    #[trigger] new_s[b].0,
                ) by {
                    if b < i {
                        assert(lex_lt(old_s[a].0, old_s[b].0));
                    } else if b == i {
                        assert(lex_lt(old_s[a].0, name@));
                    } else if a == i {
                        assert(lex_lt(new_entry.0, old_s[b - 1].0));
                    } else if a < i {
                        assert(lex_lt(old_s[a].0, name@));
                        assert(lex_lt(new_entry.0, old_s[b - 1].0));
                        lemma_lex_transitive(old_s[a].0, name@, old_s[b - 1].0);
                    } else {
                        assert(lex_lt(old_s[a - 1].0, old_s[b - 1].0));
                    }
                }
                self.lemma_insert_map(old_s, new_s, i as int, new_entry);
            }
            self.entries = entries;
        }
    }

    proof fn lemma_update_map(
        &self,
        old_s: Seq<(Seq<char>, ProfileView)>,
        new_s: Seq<(Seq<char>, ProfileView)>,
        i: int,
        e: (Seq<char>, ProfileView),
    )
        requires
            sorted_names(old_s),
            sorted_names(new_s),
            0 <= i < old_s.len(),
            old_s[i].0 == e.0,
            new_s == old_s.update(i, e),
        ensures
            map_of(new_s) == map_of(old_s).insert(e.0, e.1),
    {
        let m = map_of(old_s).insert(e.0, e.1);
        assert forall|k: Seq<char>| map_of(new_s).dom().contains(k) <==> m.dom().contains(k) by {
            if has_name(new_s, k) {
                let j = index_of_name(new_s, k);
                if j != i {
                    assert(old_s[j].0 == k);
                }
            }
            if k == e.0 {
                assert(new_s[i].0 == k);
            } else if has_name(old_s, k) {
                let j = index_of_name(old_s, k);
                assert(new_s[j].0 == k);
            }
        }
        assert forall|k: Seq<char>| map_of(new_s).dom().contains(k) implies map_of(new_s)[k]
            == m[k] by {
            let j = index_of_name(new_s, k);
            lemma_map_of_at(new_s, j);
            if j != i {
                assert(old_s[j].0 == k);
                lemma_map_of_at(old_s, j);
                if k == e.0 {
                    lemma_sorted_unique(old_s, i, j);
                }
            }
        }
        assert(map_of(new_s) =~= m);
    }

    proof fn lemma_insert_map(
        &self,
        old_s: Seq<(Seq<char>, ProfileView)>,
        new_s: Seq<(Seq<char>, ProfileView)>,
        i: int,
        e: (Seq<char>, ProfileView),
    )
        requires
            sorted_names(old_s),
            sorted_names(new_s),
            0 <= i <= old_s.len(),
            new_s == old_s.insert(i, e),
        ensures
            map_of(new_s) == map_of(old_s).insert(e.0, e.1),
    {
        let m = map_of(old_s).insert(e.0, e.1);
        assert(new_s[i] == e);
        assert forall|k: Seq<char>| map_of(new_s).dom().contains(k) <==> m.dom().contains(k) by {
            if has_name(new_s, k) {
                let j = index_of_name(new_s, k);
                if j < i {
                    assert(old_s[j].0 == k);
                } else if j > i {
                    assert(old_s[j - 1].0 == k);
                }
            }
            if k == e.0 {
                assert(new_s[i].0 == k);
            } else if has_name(old_s, k) {
                let j = index_of_name(old_s, k);
                if j < i {
                    assert(new_s[j].0 == k);
                } else {
                    assert(new_s[j + 1].0 == k);
                }
            }
        }
        assert forall|k: Seq<char>| map_of(new_s).dom().contains(k) implies map_of(new_s)[k]
            == m[k] by {
            let j = index_of_name(new_s, k);
            lemma_map_of_at(new_s, j);
            if j < i {
                assert(old_s[j].0 == k);
                assert(new_s[j] == old_s[j]);
                lemma_map_of_at(old_s, j);
                if k == e.0 {
                    lemma_sorted_unique(new_s, i, j);
                }
            } else if j > i {
                assert(old_s[j - 1].0 == k);
                assert(new_s[j] == old_s[j - 1]);
                lemma_map_of_at(old_s, j - 1);
                if k == e.0 {
                    lemma_sorted_unique(new_s, i, j);
                }
            }
        }
        assert(map_of(new_s) =~= m);
    }

    /// A copy of this map.
    pub fn copied(&self) -> (r: Self)
        ensures
            r@ == self@,
            r.entries_view() == self.entries_view(),
    {
        proof {
            use_type_invariant(self);
        }
        let mut entries: Vec<(String, ProviderProfile)> = Vec::new();
        let mut i: usize = 0;
        while i < self.entries.len()
            invariant
                i <= self.entries@.len(),
                views_of(entries@)
                    == self.entries_view().take(i as int),
            decreases self.entries@.len() - i,
        {
            let e = (self.entries[i].0.clone(), self.entries[i].1.copied());
            assert(entry_view(e) == self.entries_view()[i as int]);
            let ghost before = entries@;
            entries.push(e);
            assert(entries@ == before.push(e));
            assert(views_of(before.push(e)) =~= views_of(before).push(entry_view(e)));
            assert(self.entries_view().take(i + 1) =~= self.entries_view().take(i as int).push(
                self.entries_view()[i as int],
            ));
            i += 1;
            assert(views_of(entries@)
                =~= self.entries_view().take(i as int));
        }
        assert(self.entries_view().take(i as int) == self.entries_view());
        ProviderMap { entries }
    }
}

impl View for ProviderMap {
    type V = Map<Seq<char>, ProfileView>;

    closed spec fn view(&self) -> Map<Seq<char>, ProfileView> {
        map_of(self.entries_view())
    }
}

/// The configuration file's contents: the default provider, the provider profiles,
/// and Copilot's remembered defaults when Copilot is configured.
pub struct ProviderConfigFile {
    pub default_provider: String,
    pub providers: ProviderMap,
    pub copilot: Option<CopilotDefaults>,
}

impl ProviderConfigFile {
    /// A file naming `default_provider`, with no profiles and no Copilot section.
    pub fn new(default_provider: &str) -> (r: Self)
        ensures
            r.default_provider@ == default_provider@,
            r.providers@ == Map::<Seq<char>, ProfileView>::empty(),
            r.copilot is None,
    {
        ProviderConfigFile {
            default_provider: default_provider.to_owned(),
            providers: ProviderMap::new(),
            copilot: None,
        }
    }
}

/// Why a provider name is refused, if it is.
pub open spec fn provider_name_error(name: Seq<char>) -> Option<Seq<char>> {
    if name.len() == 0 {
        Some("provider name must not be empty"@)
    } else if name.contains('/') {
        Some("provider name must not contain '/'"@)
    } else {
        None
    }
}

/// Whether `c` occurs in `v`.
pub fn contains_char(v: &[char], c: char) -> (b: bool)
    ensures
        b == v@.contains(c),
{
    let mut i: usize = 0;
    while i < v.len()
        invariant
            i <= v@.len(),
            forall|j: int| 0 <= j < i ==> v@[j] != c,
        decreases v@.len() - i,
    {
        if v[i] == c {
            return true;
        }
        i += 1;
    }
    false
}

/// A provider name is non-empty and holds no `/` (it becomes the first part of a
/// qualified model ID).
pub fn validate_provider_name(name: &str) -> (r: Result<(), String>)
    ensures
        r is Ok <==> provider_name_error(name@) is None,
        r matches Err(e) ==> provider_name_error(name@) == Some(e@),
{
    let cs = chars_of(name);
    if cs.len() == 0 {
        Err("provider name must not be empty".to_owned())
    } else if contains_char(cs.as_slice(), '/') {
        Err("provider name must not contain '/'".to_owned())
    } else {
        Ok(())
    }
}

pub open spec fn https_prefix() -> Seq<char> {
    seq!['h', 't', 't', 'p', 's', ':', '/', '/']
}

pub open spec fn http_prefix() -> Seq<char> {
    seq!['h', 't', 't', 'p', ':', '/', '/']
}

/// `s` begins with `p`, ignoring ASCII case (`p` is lower case).
pub open spec fn starts_with_ignoring_case(s: Seq<char>, p: Seq<char>) -> bool {
    s.len() >= p.len() && ascii_lower_seq(s.take(p.len() as int)) == p
}

/// Length of the `http://` or `https://` scheme that `s` starts with, or 0.
pub open spec fn scheme_len(s: Seq<char>) -> int {
    if starts_with_ignoring_case(s, https_prefix()) {
        8
    } else if starts_with_ignoring_case(s, http_prefix()) {
        7
    } else {
        0
    }
}

/// Position of the first `c` in `s`, or `s.len()` when there is none.
pub open spec fn index_of(s: Seq<char>, c: char) -> int
    decreases s.len(),
{
    if s.len() == 0 {
        0
    } else if s[0] == c {
        0
    } else {
        1 + index_of(s.drop_first(), c)
    }
}

/// `s` without trailing `/` characters.
pub open spec fn strip_trailing_slashes(s: Seq<char>) -> Seq<char>
    decreases s.len(),
{
    if s.len() > 0 && s.last() == '/' {
        strip_trailing_slashes(s.drop_last())
    } else {
        s
    }
}

pub open spec fn any_white_space(s: Seq<char>) -> bool {
    exists|i: int| 0 <= i < s.len() && is_white_space(#[trigger] s[i])
}

/// The host part: what follows the scheme up to the first `/`.
pub open spec fn authority(t: Seq<char>) -> Seq<char> {
    let rest = t.skip(scheme_len(t));
    rest.take(index_of(rest, '/'))
}

/// The base-URL rule: after trimming, an absolute `http`/`https` URL with a host,
/// no whitespace, no credentials, no query and no fragment; accepted URLs lose
/// their trailing slashes.
pub open spec fn spec_normalize_base_url(raw: Seq<char>) -> Result<Seq<char>, Seq<char>> {
    let t = trim(raw);
    if scheme_len(t) == 0 {
        Err("base URL must start with http:// or https://"@)
    } else if any_white_space(t) {
        Err("base URL must not contain whitespace"@)
    } else if t.contains('?') || t.contains('#') {
        Err("base URL must not include a query or fragment"@)
    } else if authority(t).len() == 0 {
        Err("base URL must include a host"@)
    } else if authority(t).contains('@') {
        Err("base URL must not embed credentials"@)
    } else {
        Ok(strip_trailing_slashes(t))
    }
}

fn starts_with_ignoring_case_exec(s: &[char], p: &[char]) -> (b: bool)
    ensures
        b == starts_with_ignoring_case(s@, p@),
{
    if s.len() < p.len() {
        return false;
    }
    let head = copy_range(s, 0, p.len());
    let lowered = ascii_lower_chars(head.as_slice());
    chars_equal(lowered.as_slice(), p)
}

fn scheme_len_exec(s: &[char]) -> (n: usize)
    ensures
        n == scheme_len(s@),
{
    let https = vec!['h', 't', 't', 'p', 's', ':', '/', '/'];
    let http = vec!['h', 't', 't', 'p', ':', '/', '/'];
    if starts_with_ignoring_case_exec(s, https.as_slice()) {
        8
    } else if starts_with_ignoring_case_exec(s, http.as_slice()) {
        7
    } else {
        0
    }
}

fn index_of_exec(s: &[char], c: char) -> (n: usize)
    ensures
        n == index_of(s@, c),
        n <= s@.len(),
{
    let mut i: usize = 0;
    assert(s@.skip(0) == s@);
    while i < s.len() && s[i] != c
        invariant
            i <= s@.len(),
            i + index_of(s@.skip(i as int), c) == index_of(s@, c),
        decreases s@.len() - i,
    {
        assert(s@.skip(i as int).drop_first() == s@.skip(i + 1));
        i += 1;
    }
    i
}

proof fn lemma_index_of_bound(s: Seq<char>, c: char)
    ensures
        0 <= index_of(s, c) <= s.len(),
    decreases s.len(),
{
    if s.len() > 0 {
        lemma_index_of_bound(s.drop_first(), c);
    }
}

fn strip_trailing_slashes_end(s: &[char]) -> (n: usize)
    ensures
        n <= s@.len(),
        strip_trailing_slashes(s@) == s@.take(n as int),
{
    let mut n = s.len();
    assert(s@.take(n as int) == s@);
    while n > 0 && s[n - 1] == '/'
        invariant
            n <= s@.len(),
            strip_trailing_slashes(s@.take(n as int)) == strip_trailing_slashes(s@),
        decreases n,
    {
        assert(s@.take(n as int).drop_last() == s@.take(n - 1));
        n -= 1;
    }
    n
}

fn any_white_space_exec(s: &[char]) -> (b: bool)
    ensures
        b == any_white_space(s@),
{
    let mut i: usize = 0;
    while i < s.len()
        invariant
            i <= s@.len(),
            forall|j: int| 0 <= j < i ==> !is_white_space(#[trigger] s@[j]),
        decreases s@.len() - i,
    {
        if char_is_white_space(s[i]) {
            return true;
        }
        i += 1;
    }
    false
}

/// Checks that `raw` is an absolute `http`/`https` base URL and returns it trimmed,
/// without trailing slashes; says what is wrong otherwise.
pub fn normalize_base_url(raw: &str) -> (r: Result<String, String>)
    ensures
        r is Ok <==> spec_normalize_base_url(raw@) is Ok,
        r matches Ok(u) ==> spec_normalize_base_url(raw@) == Ok::<Seq<char>, Seq<char>>(u@),
        r matches Err(e) ==> spec_normalize_base_url(raw@) == Err::<Seq<char>, Seq<char>>(e@),
{
    let cs = chars_of(raw);
    let t = trim_chars(cs.as_slice());
    let k = scheme_len_exec(t.as_slice());
    if k == 0 {
        return Err("base URL must start with http:// or https://".to_owned());
    }
    if any_white_space_exec(t.as_slice()) {
        return Err("base URL must not contain whitespace".to_owned());
    }
    if contains_char(t.as_slice(), '?') || contains_char(t.as_slice(), '#') {
        return Err("base URL must not include a query or fragment".to_owned());
    }
    let rest = copy_range(t.as_slice(), k, t.len());
    assert(rest@ == t@.skip(k as int));
    let host_end = index_of_exec(rest.as_slice(), '/');
    let host = copy_range(rest.as_slice(), 0, host_end);
    assert(host@ == authority(t@));
    if host.len() == 0 {
        return Err("base URL must include a host".to_owned());
    }
    if contains_char(host.as_slice(), '@') {
        return Err("base URL must not embed credentials".to_owned());
    }
    let end = strip_trailing_slashes_end(t.as_slice());
    let kept = copy_range(t.as_slice(), 0, end);
    Ok(string_from_chars(kept.as_slice()))
}

} // verus!
