//! The Agent API registry: the local HTTP APIs that the tools offer, the ports
//! they use, and the conflicts between them.

use vstd::prelude::*;
use crate::model::{clone_opt, opt_view};
use crate::text::{chars_of, concat, equals_str, is_blank, owned, same_chars, str_is_blank, string_of};

verus! {

/// One tool's entry in the Agent API registry.
#[derive(Debug)]
pub struct AgentApiRegistryEntry {
    pub app_id: String,
    pub app_name: String,
    pub default_port: u16,
    pub bind_address: String,
    pub port: u16,
    pub enabled: bool,
    pub url: String,
    pub openapi_url: String,
    pub busy: bool,
    pub active_job_id: Option<String>,
    pub last_seen: Option<String>,
    pub note: Option<String>,
}

#[verifier::ext_equal]
pub struct EntryView {
    pub app_id: Seq<char>,
    pub app_name: Seq<char>,
    pub default_port: u16,
    pub bind_address: Seq<char>,
    pub port: u16,
    pub enabled: bool,
    pub url: Seq<char>,
    pub openapi_url: Seq<char>,
    pub busy: bool,
    pub active_job_id: Option<Seq<char>>,
    pub last_seen: Option<Seq<char>>,
    pub note: Option<Seq<char>>,
}

impl View for AgentApiRegistryEntry {
    type V = EntryView;

    open spec fn view(&self) -> EntryView {
        EntryView {
            app_id: self.app_id@,
            app_name: self.app_name@,
            default_port: self.default_port,
            bind_address: self.bind_address@,
            port: self.port,
            enabled: self.enabled,
            url: self.url@,
            openapi_url: self.openapi_url@,
            busy: self.busy,
            active_job_id: opt_view(self.active_job_id),
            last_seen: opt_view(self.last_seen),
            note: opt_view(self.note),
        }
    }
}

impl DeepView for AgentApiRegistryEntry {
    type V = EntryView;

    open spec fn deep_view(&self) -> EntryView {
        self@
    }
}

impl Clone for AgentApiRegistryEntry {
    fn clone(&self) -> (r: Self)
        ensures
            r@ == self@,
    {
        AgentApiRegistryEntry {
            app_id: self.app_id.clone(),
            app_name: self.app_name.clone(),
            default_port: self.default_port,
            bind_address: self.bind_address.clone(),
            port: self.port,
            enabled: self.enabled,
            url: self.url.clone(),
            openapi_url: self.openapi_url.clone(),
            busy: self.busy,
            active_job_id: clone_opt(&self.active_job_id),
            last_seen: clone_opt(&self.last_seen),
            note: clone_opt(&self.note),
        }
    }
}

/// The saved registry: when it was written and its entries.
#[derive(Debug)]
pub struct AgentApiRegistry {
    pub updated_at: String,
    pub apps: Vec<AgentApiRegistryEntry>,
}

pub open spec fn digit_char(d: nat) -> char {
    ((d + 48) as u32) as char
}

/// The decimal digits of `n`.
pub open spec fn decimal(n: nat) -> Seq<char>
    decreases n,
{
    if n < 10 {
        seq![digit_char(n)]
    } else {
        decimal(n / 10).push(digit_char(n % 10))
    }
}

fn decimal_chars(n: u32) -> (r: Vec<char>)
    ensures
        r@ == decimal(n as nat),
    decreases n,
{
    let d: u8 = (n % 10) as u8;
    let c: char = (48u8 + d) as char;
    assert(c == digit_char((n % 10) as nat));
    if n < 10 {
        let mut v: Vec<char> = Vec::new();
        v.push(c);
        assert(v@ =~= seq![c]);
        v
    } else {
        let mut v = decimal_chars(n / 10);
        v.push(c);
        v
    }
}

/// A port number in decimal.
pub fn port_text(port: u16) -> (r: String)
    ensures
        r@ == decimal(port as nat),
{
    let v = decimal_chars(port as u32);
    string_of(&v)
}

/// The address an Agent API answers on: a wildcard bind address is reached
/// through the loopback address.
pub open spec fn api_url(bind_address: Seq<char>, port: u16) -> Seq<char> {
    let host = if bind_address == "0.0.0.0"@ {
        "127.0.0.1"@
    } else {
        bind_address
    };
    "http://"@ + host + ":"@ + decimal(port as nat)
}

pub open spec fn openapi_of(url: Seq<char>) -> Seq<char> {
    url + "/openapi.json"@
}

pub fn agent_api_url(bind_address: &str, port: u16) -> (r: String)
    ensures
        r@ == api_url(bind_address@, port),
{
    let b = chars_of(bind_address);
    let host = if equals_str(&b, "0.0.0.0") {
        owned("127.0.0.1")
    } else {
        owned(bind_address)
    };
    let head = concat("http://", host.as_str());
    let with_colon = concat(head.as_str(), ":");
    let p = port_text(port);
    concat(with_colon.as_str(), p.as_str())
}

pub fn openapi_url(url: &str) -> (r: String)
    ensures
        r@ == openapi_of(url@),
{
    concat(url, "/openapi.json")
}

/// A built-in entry: disabled, on its default port, never seen.
pub open spec fn default_entry(
    app_id: Seq<char>,
    app_name: Seq<char>,
    default_port: u16,
    bind_address: Seq<char>,
    note: Seq<char>,
) -> EntryView {
    EntryView {
        app_id,
        app_name,
        default_port,
        bind_address,
        port: default_port,
        enabled: false,
        url: api_url(bind_address, default_port),
        openapi_url: openapi_of(api_url(bind_address, default_port)),
        busy: false,
        active_job_id: None,
        last_seen: None,
        note: Some(note),
    }
}

pub fn default_agent_api_entry(
    app_id: &str,
    app_name: &str,
    default_port: u16,
    bind_address: &str,
    note: &str,
) -> (r: AgentApiRegistryEntry)
    ensures
        r@ == default_entry(app_id@, app_name@, default_port, bind_address@, note@),
{
    let url = agent_api_url(bind_address, default_port);
    let openapi = openapi_url(url.as_str());
    AgentApiRegistryEntry {
        app_id: owned(app_id),
        app_name: owned(app_name),
        default_port,
        bind_address: owned(bind_address),
        port: default_port,
        enabled: false,
        url,
        openapi_url: openapi,
        busy: false,
        active_job_id: None,
        last_seen: None,
        note: Some(owned(note)),
    }
}

/// The tools that offer an Agent API, as the launcher knows them.
pub open spec fn default_entries() -> Seq<EntryView> {
    seq![
        default_entry("venice-media-local"@, "Venice Media Local"@, 9876, "0.0.0.0"@, "Remote-control API with token flow."@),
        default_entry("image-to-3d"@, "ImageTo3D"@, 17333, "127.0.0.1"@, "Local Agent API."@),
        default_entry("depth-map-ai-generator"@, "DepthMap AI Generator"@, 17334, "127.0.0.1"@, "Local Agent API."@),
        default_entry("seamless-image-edit"@, "Seamless Image Edit"@, 17335, "127.0.0.1"@, "Local Agent API."@),
        default_entry("batchlapse"@, "BatchLapse"@, 17336, "127.0.0.1"@, "Local Agent API."@),
        default_entry("cutscene-converter"@, "Cutscene Converter"@, 17337, "127.0.0.1"@, "Local Agent API."@),
        default_entry("asset-vault"@, "Asset Vault"@, 17338, "127.0.0.1"@, "Library/search API."@),
        default_entry("multi-angle-edit"@, "Multi-Angle Edit"@, 17339, "127.0.0.1"@, "Local Agent API."@),
        default_entry("image-to-splat"@, "ImageToSplat"@, 17340, "127.0.0.1"@, "Local Agent API."@),
        default_entry("sprite-atlas-packer"@, "Sprite Atlas Packer"@, 9877, "127.0.0.1"@, "Pack/slice control API."@),
    ]
}

pub fn default_agent_api_entries() -> (r: Vec<AgentApiRegistryEntry>)
    ensures
        r.deep_view() == default_entries(),
{
    let r = vec![
        default_agent_api_entry("venice-media-local", "Venice Media Local", 9876, "0.0.0.0", "Remote-control API with token flow."),
        default_agent_api_entry("image-to-3d", "ImageTo3D", 17333, "127.0.0.1", "Local Agent API."),
        default_agent_api_entry("depth-map-ai-generator", "DepthMap AI Generator", 17334, "127.0.0.1", "Local Agent API."),
        default_agent_api_entry("seamless-image-edit", "Seamless Image Edit", 17335, "127.0.0.1", "Local Agent API."),
        default_agent_api_entry("batchlapse", "BatchLapse", 17336, "127.0.0.1", "Local Agent API."),
        default_agent_api_entry("cutscene-converter", "Cutscene Converter", 17337, "127.0.0.1", "Local Agent API."),
        default_agent_api_entry("asset-vault", "Asset Vault", 17338, "127.0.0.1", "Library/search API."),
        default_agent_api_entry("multi-angle-edit", "Multi-Angle Edit", 17339, "127.0.0.1", "Local Agent API."),
        default_agent_api_entry("image-to-splat", "ImageToSplat", 17340, "127.0.0.1", "Local Agent API."),
        default_agent_api_entry("sprite-atlas-packer", "Sprite Atlas Packer", 9877, "127.0.0.1", "Pack/slice control API."),
    ];
    assert(r.deep_view() =~= default_entries());
    r
}

pub open spec fn is_first_entry(s: Seq<EntryView>, id: Seq<char>, i: int) -> bool {
    &&& 0 <= i < s.len()
    &&& s[i].app_id == id
    &&& forall|j: int| 0 <= j < i ==> s[j].app_id != id
}

/// The index of the first entry of the given app, if there is one.
pub open spec fn entry_index(s: Seq<EntryView>, id: Seq<char>) -> Option<int> {
    if exists|i: int| is_first_entry(s, id, i) {
        Some(choose|i: int| is_first_entry(s, id, i))
    } else {
        None
    }
}

proof fn lemma_entry_index_at(s: Seq<EntryView>, id: Seq<char>, i: int)
    requires
        is_first_entry(s, id, i),
    ensures
        entry_index(s, id) == Some(i),
{
    let k = choose|k: int| is_first_entry(s, id, k);
    assert(is_first_entry(s, id, k));
    if k < i {
        assert(s[k].app_id != id);
    } else if i < k {
        assert(s[i].app_id != id);
    }
}

pub fn find_entry_index(entries: &Vec<AgentApiRegistryEntry>, app_id: &String) -> (r: Option<usize>)
    ensures
        match r {
            Some(i) => entry_index(entries.deep_view(), app_id@) == Some(i as int),
            None => entry_index(entries.deep_view(), app_id@) is None,
        },
{
    let v = chars_of(app_id.as_str());
    let mut i: usize = 0;
    while i < entries.len()
        invariant
            i <= entries.len(),
            v@ == app_id@,
            forall|j: int| 0 <= j < i ==> entries.deep_view()[j].app_id != app_id@,
        decreases entries.len() - i,
    {
        let c = chars_of(entries[i].app_id.as_str());
        if same_chars(&c, &v) {
            proof {
                lemma_entry_index_at(entries.deep_view(), app_id@, i as int);
            }
            return Some(i);
        }
        i = i + 1;
    }
    None
}

/// A saved entry laid over the entry it replaces: the saved values win, but
/// a blank name or bind address falls back to the replaced one, the default
/// port always comes from it, a missing note too, and the addresses follow
/// the bind address and port.
pub open spec fn merged_entry(existing: EntryView, saved: EntryView) -> EntryView {
    let name = if is_blank(saved.app_name) {
        existing.app_name
    } else {
        saved.app_name
    };
    let bind = if is_blank(saved.bind_address) {
        existing.bind_address
    } else {
        saved.bind_address
    };
    EntryView {
        app_name: name,
        default_port: existing.default_port,
        bind_address: bind,
        url: api_url(bind, saved.port),
        openapi_url: openapi_of(api_url(bind, saved.port)),
        note: if saved.note is None {
            existing.note
        } else {
            saved.note
        },
        ..saved
    }
}

/// The saved entries laid, in order, over `base`: an entry whose app is
/// already listed replaces the first listing of it, any other is appended.
pub open spec fn overlaid_entries(base: Seq<EntryView>, saved: Seq<EntryView>) -> Seq<EntryView>
    decreases saved.len(),
{
    if saved.len() == 0 {
        base
    } else {
        let prev = overlaid_entries(base, saved.drop_last());
        let s = saved.last();
        match entry_index(prev, s.app_id) {
            Some(i) => prev.update(i, merged_entry(prev[i], s)),
            None => prev.push(s),
        }
    }
}

pub open spec fn sorted_by_default_port(s: Seq<EntryView>) -> bool {
    forall|i: int, j: int| 0 <= i < j < s.len() ==> s[i].default_port <= s[j].default_port
}

pub open spec fn with_default_port(s: Seq<EntryView>, port: u16) -> Seq<EntryView> {
    s.filter(|e: EntryView| e.default_port == port)
}

/// `r` is `s` stably sorted by default port: ordered by it, and for each port
/// the entries with that port in their order in `s`.
pub open spec fn stably_sorted_by_default_port(s: Seq<EntryView>, r: Seq<EntryView>) -> bool {
    &&& r.len() == s.len()
    &&& sorted_by_default_port(r)
    &&& forall|p: u16| #[trigger] with_default_port(r, p) == with_default_port(s, p)
}

/// The stable sort of `s` by default port.
pub open spec fn stable_sorted(s: Seq<EntryView>) -> Seq<EntryView> {
    choose|r: Seq<EntryView>| stably_sorted_by_default_port(s, r)
}

/// A key that occurs in a sorted sequence is at most its last key.
proof fn lemma_key_at_most_last(r: Seq<EntryView>, p: u16)
    requires
        sorted_by_default_port(r),
        r.len() > 0,
        with_default_port(r, p).len() > 0,
    ensures
        p <= r.last().default_port,
{
    let pred = |e: EntryView| e.default_port == p;
    let x = r.filter(pred)[0];
    r.lemma_filter_pred(pred, 0);
    assert(r.filter(pred).contains(x));
    r.lemma_filter_contains_rev(pred, x);
    let j = choose|j: int| 0 <= j < r.len() && r[j] == x;
    if j < r.len() - 1 {
        assert(r[j].default_port <= r[r.len() - 1].default_port);
    }
}

/// Two sequences sorted by default port that hold, for every port, the same
/// entries in the same order are equal.
pub proof fn lemma_sorted_by_groups_unique(r1: Seq<EntryView>, r2: Seq<EntryView>)
    requires
        r1.len() == r2.len(),
        sorted_by_default_port(r1),
        sorted_by_default_port(r2),
        forall|p: u16| #[trigger] with_default_port(r1, p) == with_default_port(r2, p),
    ensures
        r1 == r2,
    decreases r1.len(),
{
    if r1.len() == 0 {
        assert(r1 =~= r2);
    } else {
        let l1 = r1.last();
        let l2 = r2.last();
        let d1 = r1.drop_last();
        let d2 = r2.drop_last();
        assert(r1 =~= d1.push(l1));
        assert(r2 =~= d2.push(l2));
        d1.lemma_filter_push(l1, |e: EntryView| e.default_port == l1.default_port);
        d2.lemma_filter_push(l2, |e: EntryView| e.default_port == l2.default_port);
        assert(with_default_port(r1, l1.default_port).len() > 0);
        assert(with_default_port(r2, l2.default_port).len() > 0);
        assert(with_default_port(r2, l1.default_port) == with_default_port(r1, l1.default_port));
        assert(with_default_port(r1, l2.default_port) == with_default_port(r2, l2.default_port));
        lemma_key_at_most_last(r2, l1.default_port);
        lemma_key_at_most_last(r1, l2.default_port);
        let k = l1.default_port;
        assert(l2.default_port == k);
        d1.lemma_filter_push(l1, |e: EntryView| e.default_port == k);
        d2.lemma_filter_push(l2, |e: EntryView| e.default_port == k);
        assert(with_default_port(r1, k) == with_default_port(d1, k).push(l1));
        assert(with_default_port(r2, k) == with_default_port(d2, k).push(l2));
        assert(with_default_port(d1, k).push(l1) == with_default_port(d2, k).push(l2));
        assert(l1 == with_default_port(d1, k).push(l1).last());
        assert(l2 == with_default_port(d2, k).push(l2).last());
        assert(with_default_port(d1, k) =~= with_default_port(d1, k).push(l1).drop_last());
        assert(with_default_port(d2, k) =~= with_default_port(d2, k).push(l2).drop_last());
        assert forall|p: u16| #[trigger] with_default_port(d1, p) == with_default_port(d2, p) by {
            d1.lemma_filter_push(l1, |e: EntryView| e.default_port == p);
            d2.lemma_filter_push(l2, |e: EntryView| e.default_port == p);
            assert(with_default_port(r1, p) == with_default_port(r2, p));
        }
        lemma_sorted_by_groups_unique(d1, d2);
    }
}

/// A stable sort by default port is unique.
pub proof fn lemma_stable_sorted_is(s: Seq<EntryView>, r: Seq<EntryView>)
    requires
        stably_sorted_by_default_port(s, r),
    ensures
        stable_sorted(s) == r,
{
    let c = stable_sorted(s);
    assert(stably_sorted_by_default_port(s, c));
    assert forall|p: u16| #[trigger] with_default_port(c, p) == with_default_port(r, p) by {
        assert(with_default_port(c, p) == with_default_port(s, p));
        assert(with_default_port(r, p) == with_default_port(s, p));
    }
    lemma_sorted_by_groups_unique(c, r);
}

fn merge_entry_into(existing: &mut AgentApiRegistryEntry, saved: &AgentApiRegistryEntry)
    ensures
        final(existing)@ == merged_entry(old(existing)@, saved@),
{
    let mut merged = saved.clone();
    if str_is_blank(merged.app_name.as_str()) {
        merged.app_name = existing.app_name.clone();
    }
    merged.default_port = existing.default_port;
    if str_is_blank(merged.bind_address.as_str()) {
        merged.bind_address = existing.bind_address.clone();
    }
    merged.url = agent_api_url(merged.bind_address.as_str(), merged.port);
    merged.openapi_url = openapi_url(merged.url.as_str());
    if merged.note.is_none() {
        merged.note = clone_opt(&existing.note);
    }
    *existing = merged;
}

proof fn lemma_filter_none(s: Seq<EntryView>, pred: spec_fn(EntryView) -> bool)
    requires
        forall|i: int| 0 <= i < s.len() ==> !pred(s[i]),
    ensures
        s.filter(pred) =~= Seq::<EntryView>::empty(),
{
    s.lemma_all_neg_filter_empty(pred);
}

proof fn lemma_sorted_insert(s: Seq<EntryView>, pos: int, x: EntryView)
    requires
        sorted_by_default_port(s),
        0 <= pos <= s.len(),
        forall|j: int| 0 <= j < pos ==> s[j].default_port <= x.default_port,
        forall|j: int| pos <= j < s.len() ==> s[j].default_port > x.default_port,
    ensures
        sorted_by_default_port(s.insert(pos, x)),
        forall|p: u16|
            #[trigger] with_default_port(s.insert(pos, x), p) == if p == x.default_port {
                with_default_port(s, p).push(x)
            } else {
                with_default_port(s, p)
            },
{
    broadcast use vstd::seq_lib::group_seq_lib_default;
    s.insert_ensures(pos, x);
    let t = s.insert(pos, x);
    assert forall|i: int, j: int| 0 <= i < j < t.len() implies t[i].default_port
        <= t[j].default_port by {
        if j < pos {
        } else if j == pos {
        } else if i < pos {
            assert(t[j] == s[j - 1]);
        } else if i == pos {
            assert(t[j] == s[j - 1]);
        } else {
            assert(t[i] == s[i - 1]);
            assert(t[j] == s[j - 1]);
        }
    }
    assert forall|p: u16| #[trigger] with_default_port(t, p) == if p == x.default_port {
        with_default_port(s, p).push(x)
    } else {
        with_default_port(s, p)
    } by {
        let pred = |e: EntryView| e.default_port == p;
        let a = s.subrange(0, pos);
        let b = s.subrange(pos, s.len() as int);
        assert(s =~= a + b);
        assert(t =~= a.push(x) + b);
        Seq::filter_distributes_over_add(a.push(x), b, pred);
        Seq::filter_distributes_over_add(a, b, pred);
        a.lemma_filter_push(x, pred);
        if p == x.default_port {
            lemma_filter_none(b, pred);
            assert(with_default_port(s, p) =~= a.filter(pred));
            assert(with_default_port(t, p) =~= a.filter(pred).push(x));
        } else {
            assert(with_default_port(t, p) =~= a.filter(pred) + b.filter(pred));
        }
    }
}

/// Inserts `x` after every entry whose default port is not above its own.
fn insert_by_default_port(sorted: &mut Vec<AgentApiRegistryEntry>, x: AgentApiRegistryEntry)
    requires
        sorted_by_default_port(old(sorted).deep_view()),
    ensures
        sorted_by_default_port(final(sorted).deep_view()),
        final(sorted).len() == old(sorted).len() + 1,
        forall|p: u16|
            #[trigger] with_default_port(final(sorted).deep_view(), p) == if p == x@.default_port {
                with_default_port(old(sorted).deep_view(), p).push(x@)
            } else {
                with_default_port(old(sorted).deep_view(), p)
            },
{
    let ghost s = sorted.deep_view();
    let mut pos: usize = 0;
    while pos < sorted.len() && sorted[pos].default_port <= x.default_port
        invariant
            pos <= sorted.len(),
            s == sorted.deep_view(),
            sorted_by_default_port(s),
            forall|j: int| 0 <= j < pos ==> s[j].default_port <= x@.default_port,
        decreases sorted.len() - pos,
    {
        pos = pos + 1;
    }
    proof {
        if pos < sorted.len() {
            assert(s[pos as int].default_port > x@.default_port);
            assert forall|j: int| pos <= j < s.len() implies s[j].default_port > x@.default_port by {
                if j > pos {
                    assert(s[pos as int].default_port <= s[j].default_port);
                }
            }
        }
        lemma_sorted_insert(s, pos as int, x@);
    }
    let ghost xv = x@;
    sorted.insert(pos, x);
    assert(sorted.deep_view() =~= s.insert(pos as int, xv));
}

/// The registry's entries merged over the built-in ones and stably sorted by
/// default port.
pub fn merged_agent_api_entries(registry: &AgentApiRegistry) -> (r: Vec<AgentApiRegistryEntry>)
    ensures
        stably_sorted_by_default_port(
            overlaid_entries(default_entries(), registry.apps.deep_view()),
            r.deep_view(),
        ),
        r.deep_view() == stable_sorted(overlaid_entries(default_entries(), registry.apps.deep_view())),
{
    let mut entries = default_agent_api_entries();
    let ghost saved = registry.apps.deep_view();
    let mut i: usize = 0;
    while i < registry.apps.len()
        invariant
            i <= registry.apps.len(),
            saved == registry.apps.deep_view(),
            entries.deep_view() == overlaid_entries(default_entries(), saved.subrange(0, i as int)),
        decreases registry.apps.len() - i,
    {
        assert(saved.subrange(0, i + 1).drop_last() =~= saved.subrange(0, i as int));
        assert(saved.subrange(0, i + 1).last() == saved[i as int]);
        let ghost before = entries.deep_view();
        match find_entry_index(&entries, &registry.apps[i].app_id) {
            Some(k) => {
                let mut existing = entries[k].clone();
                merge_entry_into(&mut existing, &registry.apps[i]);
                let ghost m = existing@;
                entries.set(k, existing);
                assert(entries.deep_view() =~= before.update(k as int, m));
            },
            None => {
                entries.push(registry.apps[i].clone());
                assert(entries.deep_view() =~= before.push(saved[i as int]));
            },
        }
        i = i + 1;
    }
    assert(saved.subrange(0, saved.len() as int) =~= saved);
    let ghost pre = entries.deep_view();
    let mut sorted: Vec<AgentApiRegistryEntry> = Vec::new();
    let mut k: usize = 0;
    while k < entries.len()
        invariant
            k <= entries.len(),
            pre == entries.deep_view(),
            sorted.len() == k,
            sorted_by_default_port(sorted.deep_view()),
            forall|p: u16|
                #[trigger] with_default_port(sorted.deep_view(), p) == with_default_port(
                    pre.subrange(0, k as int),
                    p,
                ),
        decreases entries.len() - k,
    {
        let x = entries[k].clone();
        insert_by_default_port(&mut sorted, x);
        proof {
            assert(pre.subrange(0, k + 1) =~= pre.subrange(0, k as int).push(pre[k as int]));
            assert forall|p: u16| #[trigger] with_default_port(sorted.deep_view(), p)
                == with_default_port(pre.subrange(0, k + 1), p) by {
                pre.subrange(0, k as int).lemma_filter_push(
                    pre[k as int],
                    |e: EntryView| e.default_port == p,
                );
            }
        }
        k = k + 1;
    }
    assert(pre.subrange(0, pre.len() as int) =~= pre);
    proof {
        lemma_stable_sorted_is(pre, sorted.deep_view());
    }
    sorted
}

/// A port that several registry entries use.
#[derive(Debug)]
pub struct AgentApiPortConflict {
    pub port: u16,
    pub app_ids: Vec<String>,
    pub app_names: Vec<String>,
}

pub struct ConflictView {
    pub port: u16,
    pub app_ids: Seq<Seq<char>>,
    pub app_names: Seq<Seq<char>>,
}

impl View for AgentApiPortConflict {
    type V = ConflictView;

    open spec fn view(&self) -> ConflictView {
        ConflictView {
            port: self.port,
            app_ids: self.app_ids.deep_view(),
            app_names: self.app_names.deep_view(),
        }
    }
}

impl DeepView for AgentApiPortConflict {
    type V = ConflictView;

    open spec fn deep_view(&self) -> ConflictView {
        self@
    }
}

pub open spec fn on_port(s: Seq<EntryView>, port: u16) -> Seq<EntryView> {
    s.filter(|e: EntryView| e.port == port)
}

pub open spec fn ids_of(s: Seq<EntryView>) -> Seq<Seq<char>> {
    s.map_values(|e: EntryView| e.app_id)
}

pub open spec fn names_of(s: Seq<EntryView>) -> Seq<Seq<char>> {
    s.map_values(|e: EntryView| e.app_name)
}

/// `r` lists, by increasing port, every port that two or more entries use,
/// each with those entries' ids and names in entry order.
pub open spec fn conflicts_of(entries: Seq<EntryView>, r: Seq<ConflictView>) -> bool {
    &&& forall|i: int, j: int| 0 <= i < j < r.len() ==> r[i].port < r[j].port
    &&& forall|i: int|
        0 <= i < r.len() ==> {
            &&& on_port(entries, r[i].port).len() >= 2
            &&& r[i].app_ids == ids_of(on_port(entries, r[i].port))
            &&& r[i].app_names == names_of(on_port(entries, r[i].port))
        }
    &&& forall|p: u16|
        #[trigger] on_port(entries, p).len() >= 2 ==> exists|i: int| 0 <= i < r.len() && r[i].port == p
}

pub open spec fn port_listed(entries: Seq<EntryView>, p: u16) -> bool {
    exists|j: int| 0 <= j < entries.len() && entries[j].port == p
}

fn port_index(ports: &Vec<u16>, p: u16) -> (r: Option<usize>)
    requires
        forall|i: int, j: int| 0 <= i < j < ports.len() ==> ports@[i] < ports@[j],
    ensures
        match r {
            Some(i) => i <= ports.len() && (forall|j: int| 0 <= j < i ==> ports@[j] < p) && (forall|
                j: int,
            | i <= j < ports.len() ==> ports@[j] > p),
            None => ports@.contains(p),
        },
{
    let mut i: usize = 0;
    while i < ports.len() && ports[i] < p
        invariant
            i <= ports.len(),
            forall|j: int| 0 <= j < i ==> ports@[j] < p,
        decreases ports.len() - i,
    {
        i = i + 1;
    }
    if i < ports.len() && ports[i] == p {
        assert(ports@[i as int] == p);
        return None;
    }
    proof {
        assert forall|j: int| i <= j < ports.len() implies ports@[j] > p by {
            if j > i {
                assert(ports@[i as int] < ports@[j]);
            }
        }
    }
    Some(i)
}

/// The distinct ports of the entries, increasing.
fn distinct_ports(entries: &Vec<AgentApiRegistryEntry>) -> (r: Vec<u16>)
    ensures
        forall|i: int, j: int| 0 <= i < j < r.len() ==> r@[i] < r@[j],
        forall|p: u16| r@.contains(p) <==> port_listed(entries.deep_view(), p),
{
    let ghost es = entries.deep_view();
    let mut ports: Vec<u16> = Vec::new();
    let mut k: usize = 0;
    while k < entries.len()
        invariant
            k <= entries.len(),
            es == entries.deep_view(),
            forall|i: int, j: int| 0 <= i < j < ports.len() ==> ports@[i] < ports@[j],
            forall|p: u16|
                ports@.contains(p) <==> exists|j: int| 0 <= j < k && es[j].port == p,
        decreases entries.len() - k,
    {
        let p = entries[k].port;
        assert(es[k as int].port == p);
        match port_index(&ports, p) {
            Some(pos) => {
                let ghost old_ports = ports@;
                ports.insert(pos, p);
                proof {
                    old_ports.insert_ensures(pos as int, p);
                    assert forall|i: int, j: int| 0 <= i < j < ports.len() implies ports@[i]
                        < ports@[j] by {
                        if j < pos {
                        } else if j == pos {
                        } else if i < pos {
                            assert(ports@[j] == old_ports[j - 1]);
                        } else if i == pos {
                            assert(ports@[j] == old_ports[j - 1]);
                        } else {
                            assert(ports@[i] == old_ports[i - 1]);
                            assert(ports@[j] == old_ports[j - 1]);
                        }
                    }
                    assert forall|q: u16| ports@.contains(q) <==> exists|j: int|
                        0 <= j < k + 1 && es[j].port == q by {
                        if ports@.contains(q) {
                            let m = choose|m: int| 0 <= m < ports.len() && ports@[m] == q;
                            if m < pos {
                                assert(old_ports[m] == q);
                                assert(old_ports.contains(q));
                            } else if m == pos {
                                assert(es[k as int].port == q);
                            } else {
                                assert(old_ports[m - 1] == q);
                                assert(old_ports.contains(q));
                            }
                        }
                        if exists|j: int| 0 <= j < k + 1 && es[j].port == q {
                            let j = choose|j: int| 0 <= j < k + 1 && es[j].port == q;
                            if j < k {
                                assert(old_ports.contains(q));
                                let m = choose|m: int| 0 <= m < old_ports.len() && old_ports[m] == q;
                                if m < pos {
                                    assert(ports@[m] == q);
                                } else {
                                    assert(ports@[m + 1] == q);
                                }
                            } else {
                                assert(ports@[pos as int] == q);
                            }
                        }
                    }
                }
            },
            None => {},
        }
        k = k + 1;
    }
    ports
}

/// The ids and names of the entries on one port, in entry order.
fn entries_on_port(entries: &Vec<AgentApiRegistryEntry>, port: u16) -> (r: (Vec<String>, Vec<String>))
    ensures
        r.0.deep_view() == ids_of(on_port(entries.deep_view(), port)),
        r.1.deep_view() == names_of(on_port(entries.deep_view(), port)),
{
    let ghost es = entries.deep_view();
    let ghost pred = |e: EntryView| e.port == port;
    let mut ids: Vec<String> = Vec::new();
    let mut names: Vec<String> = Vec::new();
    let mut i: usize = 0;
    while i < entries.len()
        invariant
            i <= entries.len(),
            es == entries.deep_view(),
            pred == (|e: EntryView| e.port == port),
            ids.deep_view() == ids_of(es.subrange(0, i as int).filter(pred)),
            names.deep_view() == names_of(es.subrange(0, i as int).filter(pred)),
        decreases entries.len() - i,
    {
        proof {
            es.subrange(0, i as int).lemma_filter_push(es[i as int], pred);
            assert(es.subrange(0, i + 1) =~= es.subrange(0, i as int).push(es[i as int]));
        }
        if entries[i].port == port {
            let ghost f = es.subrange(0, i as int).filter(pred);
            ids.push(entries[i].app_id.clone());
            names.push(entries[i].app_name.clone());
            assert(ids_of(f.push(es[i as int])) =~= ids_of(f).push(es[i as int].app_id));
            assert(names_of(f.push(es[i as int])) =~= names_of(f).push(es[i as int].app_name));
            assert(ids.deep_view() =~= ids_of(f).push(es[i as int].app_id));
            assert(names.deep_view() =~= names_of(f).push(es[i as int].app_name));
        }
        i = i + 1;
    }
    assert(es.subrange(0, es.len() as int) =~= es);
    (ids, names)
}

proof fn lemma_on_port_listed(entries: Seq<EntryView>, p: u16)
    requires
        on_port(entries, p).len() > 0,
    ensures
        port_listed(entries, p),
{
    let pred = |e: EntryView| e.port == p;
    let x = entries.filter(pred)[0];
    entries.lemma_filter_pred(pred, 0);
    assert(entries.filter(pred).contains(x));
    entries.lemma_filter_contains_rev(pred, x);
    let j = choose|j: int| 0 <= j < entries.len() && entries[j] == x;
    assert(entries[j].port == p);
}

/// The ports that two or more entries use.
pub fn agent_api_conflicts(entries: &Vec<AgentApiRegistryEntry>) -> (r: Vec<AgentApiPortConflict>)
    ensures
        conflicts_of(entries.deep_view(), r.deep_view()),
{
    let ghost es = entries.deep_view();
    let ports = distinct_ports(entries);
    let mut conflicts: Vec<AgentApiPortConflict> = Vec::new();
    let mut k: usize = 0;
    while k < ports.len()
        invariant
            k <= ports.len(),
            es == entries.deep_view(),
            forall|i: int, j: int| 0 <= i < j < ports.len() ==> ports@[i] < ports@[j],
            forall|i: int, j: int|
                0 <= i < j < conflicts.len() ==> conflicts.deep_view()[i].port
                    < conflicts.deep_view()[j].port,
            forall|i: int|
                0 <= i < conflicts.len() ==> {
                    &&& on_port(es, conflicts.deep_view()[i].port).len() >= 2
                    &&& conflicts.deep_view()[i].app_ids == ids_of(
                        on_port(es, conflicts.deep_view()[i].port),
                    )
                    &&& conflicts.deep_view()[i].app_names == names_of(
                        on_port(es, conflicts.deep_view()[i].port),
                    )
                    &&& exists|m: int| 0 <= m < k && ports@[m] == conflicts.deep_view()[i].port
                },
            forall|m: int|
                0 <= m < k && #[trigger] on_port(es, ports@[m]).len() >= 2 ==> exists|i: int|
                    0 <= i < conflicts.len() && conflicts.deep_view()[i].port == ports@[m],
        decreases ports.len() - k,
    {
        let p = ports[k];
        let (ids, names) = entries_on_port(entries, p);
        assert(ids.deep_view().len() == ids.len());
        assert(ids.len() == on_port(es, p).len());
        let ghost before = conflicts.deep_view();
        if ids.len() >= 2 {
            conflicts.push(AgentApiPortConflict { port: p, app_ids: ids, app_names: names });
            proof {
                assert(conflicts.deep_view() =~= before.push(conflicts.deep_view()[before.len() as int]));
                assert(conflicts.deep_view()[before.len() as int].port == ports@[k as int]);
                assert forall|m: int|
                    0 <= m < k + 1 && #[trigger] on_port(es, ports@[m]).len() >= 2 implies exists|i: int|
                    0 <= i < conflicts.len() && conflicts.deep_view()[i].port == ports@[m] by {
                    if m < k {
                        let i = choose|i: int| 0 <= i < before.len() && before[i].port == ports@[m];
                        assert(conflicts.deep_view()[i] == before[i]);
                    } else {
                        assert(conflicts.deep_view()[before.len() as int].port == ports@[m]);
                    }
                }
                assert forall|i: int| 0 <= i < before.len() implies before[i].port < p by {
                    let m = choose|m: int| 0 <= m < k && ports@[m] == before[i].port;
                    assert(ports@[m] < ports@[k as int]);
                }
            }
        }
        k = k + 1;
    }
    proof {
        assert forall|p: u16| #[trigger] on_port(es, p).len() >= 2 implies exists|i: int|
            0 <= i < conflicts.len() && conflicts.deep_view()[i].port == p by {
            lemma_on_port_listed(es, p);
            assert(ports@.contains(p));
            let m = choose|m: int| 0 <= m < ports.len() && ports@[m] == p;
            assert(on_port(es, ports@[m]).len() >= 2);
        }
    }
    conflicts
}

/// The first port from 17333 to 17499 that no entry uses, else 17500.
pub open spec fn next_free_port(entries: Seq<EntryView>, r: u16) -> bool {
    ||| (17333 <= r <= 17499 && !port_listed(entries, r) && forall|q: u16|
        17333 <= q < r ==> port_listed(entries, q))
    ||| (r == 17500 && forall|q: u16| 17333 <= q <= 17499 ==> port_listed(entries, q))
}

fn port_in_use(entries: &Vec<AgentApiRegistryEntry>, p: u16) -> (r: bool)
    ensures
        r == port_listed(entries.deep_view(), p),
{
    let mut i: usize = 0;
    while i < entries.len()
        invariant
            i <= entries.len(),
            forall|j: int| 0 <= j < i ==> entries.deep_view()[j].port != p,
        decreases entries.len() - i,
    {
        if entries[i].port == p {
            assert(entries.deep_view()[i as int].port == p);
            return true;
        }
        i = i + 1;
    }
    false
}

pub fn next_available_agent_port(entries: &Vec<AgentApiRegistryEntry>) -> (r: u16)
    ensures
        next_free_port(entries.deep_view(), r),
{
    let mut p: u16 = 17333;
    while p <= 17499
        invariant
            17333 <= p <= 17500,
            forall|q: u16| 17333 <= q < p ==> port_listed(entries.deep_view(), q),
        decreases 17500 - p,
    {
        if !port_in_use(entries, p) {
            return p;
        }
        p = p + 1;
    }
    17500
}

/// What the Agent API page shows.
#[derive(Debug)]
pub struct AgentApiDashboard {
    pub registry_path: String,
    pub updated_at: String,
    pub apps: Vec<AgentApiRegistryEntry>,
    pub conflicts: Vec<AgentApiPortConflict>,
    pub next_available_port: u16,
}

pub fn agent_api_dashboard_from(registry: AgentApiRegistry, registry_path: String) -> (r:
    AgentApiDashboard)
    ensures
        r.apps.deep_view() == stable_sorted(
            overlaid_entries(default_entries(), registry.apps.deep_view()),
        ),
        conflicts_of(r.apps.deep_view(), r.conflicts.deep_view()),
        next_free_port(r.apps.deep_view(), r.next_available_port),
        r.updated_at@ == registry.updated_at@,
        r.registry_path@ == registry_path@,
{
    let entries = merged_agent_api_entries(&registry);
    let conflicts = agent_api_conflicts(&entries);
    let next_available_port = next_available_agent_port(&entries);
    AgentApiDashboard {
        registry_path,
        updated_at: registry.updated_at,
        apps: entries,
        conflicts,
        next_available_port,
    }
}

/// An entry moved to another port and marked seen at `now`.
pub open spec fn on_new_port(e: EntryView, port: u16, now: Seq<char>) -> EntryView {
    EntryView {
        port,
        url: api_url(e.bind_address, port),
        openapi_url: openapi_of(api_url(e.bind_address, port)),
        last_seen: Some(now),
        ..e
    }
}

/// The merged entries with one app's port changed, as saving a port writes
/// them back.
pub fn update_agent_api_port(
    registry: &AgentApiRegistry,
    app_id: &String,
    port: u16,
    now: &str,
) -> (r: Result<Vec<AgentApiRegistryEntry>, String>)
    ensures
        port == 0 ==> (r matches Err(e) && e@ == "Agent API port must be between 1 and 65535."@),
        port != 0 ==> {
            let m = stable_sorted(overlaid_entries(default_entries(), registry.apps.deep_view()));
            match entry_index(m, app_id@) {
                None => r matches Err(e) && e@ == "Agent API app was not found."@,
                Some(i) => r matches Ok(es) && es.deep_view() == m.update(
                    i,
                    on_new_port(m[i], port, now@),
                ),
            }
        },
{
    if port == 0 {
        return Err(owned("Agent API port must be between 1 and 65535."));
    }
    let mut entries = merged_agent_api_entries(registry);
    let k = match find_entry_index(&entries, app_id) {
        Some(k) => k,
        None => {
            return Err(owned("Agent API app was not found."));
        },
    };
    let mut entry = entries[k].clone();
    entry.port = port;
    entry.url = agent_api_url(entry.bind_address.as_str(), port);
    entry.openapi_url = openapi_url(entry.url.as_str());
    entry.last_seen = Some(owned(now));
    let ghost before = entries.deep_view();
    let ghost ev = entry@;
    entries.set(k, entry);
    assert(entries.deep_view() =~= before.update(k as int, ev));
    Ok(entries)
}

/// The arguments that start a tool with only its Agent API running, for the
/// tools that have such a mode.
pub open spec fn headless_args(app_id: Seq<char>, port: u16) -> Option<Seq<Seq<char>>> {
    if app_id == "sprite-atlas-packer"@ {
        Some(seq!["--headless"@, "--serve"@, "--port"@, decimal(port as nat)])
    } else if app_id == "image-to-splat"@ {
        Some(seq!["--serve-agent-api"@, "--agent-api-port"@, decimal(port as nat)])
    } else if headless_family(app_id) {
        Some(seq!["--headless"@, "--agent-api-port"@, decimal(port as nat)])
    } else {
        None
    }
}

pub fn headless_agent_args(app_id: &str, port: u16) -> (r: Result<Vec<String>, String>)
    ensures
        match headless_args(app_id@, port) {
            Some(a) => r matches Ok(v) && v.deep_view() == a,
            None => r matches Err(e) && e@
                == "This app does not advertise a Control Center headless launch mode yet."@,
        },
{
    let id = chars_of(app_id);
    if equals_str(&id, "sprite-atlas-packer") {
        let a = vec![owned("--headless"), owned("--serve"), owned("--port"), port_text(port)];
        assert(a.deep_view() =~= seq!["--headless"@, "--serve"@, "--port"@, decimal(port as nat)]);
        Ok(a)
    } else if equals_str(&id, "image-to-splat") {
        let a = vec![owned("--serve-agent-api"), owned("--agent-api-port"), port_text(port)];
        assert(a.deep_view() =~= seq!["--serve-agent-api"@, "--agent-api-port"@, decimal(port as nat)]);
        Ok(a)
    } else if equals_str(&id, "asset-vault") || equals_str(&id, "batchlapse") || equals_str(
        &id,
        "cutscene-converter",
    ) || equals_str(&id, "depth-map-ai-generator") || equals_str(&id, "image-to-3d") || equals_str(
        &id,
        "multi-angle-edit",
    ) {
        let a = vec![owned("--headless"), owned("--agent-api-port"), port_text(port)];
        assert(a.deep_view() =~= seq!["--headless"@, "--agent-api-port"@, decimal(port as nat)]);
        Ok(a)
    } else {
        Err(owned("This app does not advertise a Control Center headless launch mode yet."))
    }
}

/// The tools whose headless Agent API mode takes `--headless` and a port.
pub open spec fn headless_family(app_id: Seq<char>) -> bool {
    ||| app_id == "asset-vault"@
    ||| app_id == "batchlapse"@
    ||| app_id == "cutscene-converter"@
    ||| app_id == "depth-map-ai-generator"@
    ||| app_id == "image-to-3d"@
    ||| app_id == "multi-angle-edit"@
}

} // verus!
