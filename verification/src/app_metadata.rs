//! Icons and screenshots for the search detail pane: how a guix package
//! name is matched to a Flathub component id (by the lower-cased last
//! segment of the id, with canonical desktop projects preferred), and
//! which screenshot URLs are taken from the catalogs' replies.

use vstd::prelude::*;
use crate::text::{chars_of, string_of, push_str, eq_str, starts_with_str, rsplit_once_spec, rsplit_once_str};

verus! {

pub const FLATHUB_API: &'static str = "https://flathub.org/api/v2";
pub const DEBIAN_SCREENSHOTS_API: &'static str = "https://screenshots.debian.net/json/package";
/// Screenshots fetched per application.
pub const SCREENSHOT_PREFETCH: usize = 3;
/// Larger image bodies are dropped.
pub const MAX_IMAGE_BYTES: usize = 4194304;
/// HTTP timeout for catalog requests, in seconds.
pub const HTTP_TIMEOUT_SECS: u64 = 8;

/// What `str::to_lowercase` yields for a text (Unicode lower case).
pub uninterp spec fn unicode_lowercase(s: Seq<char>) -> Seq<char>;

/// `str::to_lowercase`. The result is named after the text alone.
#[verifier::external_body]
fn to_lowercase(s: &str) -> (r: String)
    ensures
        r@ == unicode_lowercase(s@),
{
    s.to_lowercase()
}

/// The index key of a component id: its last `.`-separated segment (the
/// whole id when it has no dot), lower-cased.
pub open spec fn tail_key(id: Seq<char>) -> Seq<char> {
    unicode_lowercase(match rsplit_once_spec(id, "."@) {
        Some((_, t)) => t,
        None => id,
    })
}

/// Component ids grouped by key, groups in order of first appearance and
/// ids in input order.
pub struct FlathubIndex {
    pub by_lower_tail: Vec<(String, Vec<String>)>,
}

pub open spec fn strs(v: Seq<String>) -> Seq<Seq<char>> {
    v.map_values(|s: String| s@)
}

pub open spec fn index_view(v: Seq<(String, Vec<String>)>) -> Seq<(Seq<char>, Seq<Seq<char>>)> {
    v.map_values(|g: (String, Vec<String>)| (g.0@, strs(g.1@)))
}

/// The position of the group keyed `key`.
pub open spec fn key_index(gs: Seq<(Seq<char>, Seq<Seq<char>>)>, key: Seq<char>) -> Option<int>
    decreases gs.len(),
{
    if gs.len() == 0 {
        None
    } else {
        match key_index(gs.drop_last(), key) {
            Some(i) => Some(i),
            None => if gs.last().0 == key { Some(gs.len() - 1) } else { None },
        }
    }
}

/// The index the ids make, added one at a time.
pub open spec fn index_spec(ids: Seq<Seq<char>>) -> Seq<(Seq<char>, Seq<Seq<char>>)>
    decreases ids.len(),
{
    if ids.len() == 0 {
        Seq::empty()
    } else {
        let gs = index_spec(ids.drop_last());
        let id = ids.last();
        match key_index(gs, tail_key(id)) {
            Some(i) => gs.update(i, (gs[i].0, gs[i].1.push(id))),
            None => gs.push((tail_key(id), seq![id])),
        }
    }
}

proof fn lemma_key_index(gs: Seq<(Seq<char>, Seq<Seq<char>>)>, key: Seq<char>)
    ensures
        match key_index(gs, key) {
            Some(i) => 0 <= i < gs.len() && gs[i].0 == key,
            None => forall|j: int| 0 <= j < gs.len() ==> gs[j].0 != key,
        },
    decreases gs.len(),
{
    if gs.len() > 0 {
        lemma_key_index(gs.drop_last(), key);
        assert(forall|j: int| 0 <= j < gs.len() - 1 ==> gs.drop_last()[j] == gs[j]);
    }
}

/// The canonical desktop-project prefixes preferred among several
/// candidates, most preferred first.
pub open spec fn preferred_prefixes() -> Seq<Seq<char>> {
    seq!["org.gnome."@, "org.kde."@, "org.gnu."@, "org.freedesktop."@]
}

/// The first candidate that starts with `p`.
pub open spec fn first_with_prefix(cands: Seq<Seq<char>>, p: Seq<char>) -> Option<Seq<char>>
    decreases cands.len(),
{
    if cands.len() == 0 {
        None
    } else if p.is_prefix_of(cands[0]) {
        Some(cands[0])
    } else {
        first_with_prefix(cands.drop_first(), p)
    }
}

/// The pick among candidates: the only one; else the first with the
/// most preferred prefix that any has; else the first.
pub open spec fn pick_spec(cands: Seq<Seq<char>>) -> Option<Seq<char>> {
    if cands.len() == 0 {
        None
    } else if cands.len() == 1 {
        Some(cands[0])
    } else {
        pick_preferred(cands, preferred_prefixes())
    }
}

pub open spec fn pick_preferred(cands: Seq<Seq<char>>, ps: Seq<Seq<char>>) -> Option<Seq<char>>
    decreases ps.len(),
{
    if ps.len() == 0 {
        Some(cands[0])
    } else {
        match first_with_prefix(cands, ps[0]) {
            Some(c) => Some(c),
            None => pick_preferred(cands, ps.drop_first()),
        }
    }
}

/// The component id a guix package name maps to.
pub open spec fn lookup_spec(gs: Seq<(Seq<char>, Seq<Seq<char>>)>, name: Seq<char>) -> Option<Seq<char>> {
    match key_index(gs, unicode_lowercase(name)) {
        Some(i) => pick_spec(gs[i].1),
        None => None,
    }
}

fn find_key(gs: &Vec<(String, Vec<String>)>, key: &str) -> (r: Option<usize>)
    ensures
        match r {
            Some(i) => key_index(index_view(gs@), key@) == Some(i as int),
            None => key_index(index_view(gs@), key@) is None,
        },
{
    let ghost v = index_view(gs@);
    let mut i: usize = 0;
    assert(v.subrange(0, 0) =~= Seq::<(Seq<char>, Seq<Seq<char>>)>::empty());
    while i < gs.len()
        invariant
            i <= gs@.len(),
            v == index_view(gs@),
            key_index(v.subrange(0, i as int), key@) is None,
        decreases gs@.len() - i,
    {
        assert(v.subrange(0, i + 1).drop_last() =~= v.subrange(0, i as int));
        assert(v[i as int].0 == gs@[i as int].0@);
        let kc = chars_of(gs[i].0.as_str());
        if eq_str(&kc, key) {
            proof {
                lemma_key_index_prefix(v, key@, i as int + 1);
            }
            return Some(i);
        }
        i += 1;
    }
    assert(v.subrange(0, v.len() as int) =~= v);
    None
}

proof fn lemma_key_index_prefix(gs: Seq<(Seq<char>, Seq<Seq<char>>)>, key: Seq<char>, k: int)
    requires
        0 <= k <= gs.len(),
        key_index(gs.subrange(0, k), key) is Some,
    ensures
        key_index(gs, key) == key_index(gs.subrange(0, k), key),
    decreases gs.len() - k,
{
    if k < gs.len() {
        assert(gs.subrange(0, k + 1).drop_last() =~= gs.subrange(0, k));
        lemma_key_index_prefix(gs, key, k + 1);
    } else {
        assert(gs.subrange(0, k) =~= gs);
    }
}

fn dup_strings(v: &Vec<String>) -> (r: Vec<String>)
    ensures
        r@ == v@,
{
    let mut out: Vec<String> = Vec::new();
    let mut i: usize = 0;
    while i < v.len()
        invariant
            i <= v@.len(),
            out@ == v@.subrange(0, i as int),
        decreases v@.len() - i,
    {
        out.push(v[i].clone());
        assert(out@ =~= v@.subrange(0, i + 1));
        i += 1;
    }
    assert(v@.subrange(0, v@.len() as int) =~= v@);
    out
}

impl FlathubIndex {
    /// Indexes component ids by their key.
    pub fn build(ids: Vec<String>) -> (r: Self)
        ensures
            index_view(r.by_lower_tail@) == index_spec(strs(ids@)),
    {
        let ghost is = strs(ids@);
        let mut gs: Vec<(String, Vec<String>)> = Vec::new();
        let mut k: usize = 0;
        assert(is.subrange(0, 0) =~= Seq::<Seq<char>>::empty());
        assert(index_view(gs@) =~= index_spec(Seq::<Seq<char>>::empty()));
        while k < ids.len()
            invariant
                k <= ids@.len(),
                is == strs(ids@),
                index_view(gs@) == index_spec(is.subrange(0, k as int)),
            decreases ids@.len() - k,
        {
            let id = &ids[k];
            assert(is[k as int] == id@);
            assert(is.subrange(0, k + 1).drop_last() =~= is.subrange(0, k as int));
            assert(is.subrange(0, k + 1).last() == id@);
            let cs = chars_of(id.as_str());
            let tail = match rsplit_once_str(&cs, ".") {
                Some((_, t)) => string_of(&t),
                None => id.clone(),
            };
            let key = to_lowercase(tail.as_str());
            assert(key@ == tail_key(id@));
            let ghost before = index_view(gs@);
            match find_key(&gs, key.as_str()) {
                Some(i) => {
                    proof {
                        lemma_key_index(before, key@);
                    }
                    let ghost ob = gs@;
                    let mut g = gs.remove(i);
                    let ghost old_ids = strs(g.1@);
                    g.1.push(id.clone());
                    assert(strs(g.1@) =~= old_ids.push(id@));
                    gs.insert(i, g);
                    assert(gs@ =~= ob.update(i as int, g));
                    assert(index_view(gs@) =~= before.update(i as int, (before[i as int].0, before[i as int].1.push(id@))));
                },
                None => {
                    let mut v: Vec<String> = Vec::new();
                    v.push(id.clone());
                    assert(strs(v@) =~= seq![id@]);
                    gs.push((key, v));
                    assert(index_view(gs@) =~= before.push((tail_key(id@), seq![id@])));
                },
            }
            k += 1;
        }
        assert(is.subrange(0, is.len() as int) =~= is);
        FlathubIndex { by_lower_tail: gs }
    }

    /// The component id for a guix package name, if any.
    pub fn lookup(&self, guix_name: &str) -> (r: Option<String>)
        ensures
            match lookup_spec(index_view(self.by_lower_tail@), guix_name@) {
                Some(id) => r matches Some(s) && s@ == id,
                None => r is None,
            },
    {
        let key = to_lowercase(guix_name);
        let i = match find_key(&self.by_lower_tail, key.as_str()) {
            Some(i) => i,
            None => return None,
        };
        proof {
            lemma_key_index(index_view(self.by_lower_tail@), key@);
        }
        let cands = dup_strings(&self.by_lower_tail[i].1);
        assert(strs(cands@) == index_view(self.by_lower_tail@)[i as int].1);
        pick(&cands)
    }
}

fn first_prefixed(cands: &Vec<String>, p: &str) -> (r: Option<usize>)
    ensures
        match r {
            Some(i) => i < cands@.len() && first_with_prefix(strs(cands@), p@) == Some(cands@[i as int]@),
            None => first_with_prefix(strs(cands@), p@) is None,
        },
{
    let ghost cs = strs(cands@);
    let mut i: usize = 0;
    assert(cs.subrange(0, cs.len() as int) =~= cs);
    while i < cands.len()
        invariant
            i <= cands@.len(),
            cs == strs(cands@),
            first_with_prefix(cs, p@) == first_with_prefix(cs.subrange(i as int, cs.len() as int), p@),
        decreases cands@.len() - i,
    {
        let ghost sub = cs.subrange(i as int, cs.len() as int);
        assert(sub.drop_first() =~= cs.subrange(i + 1, cs.len() as int));
        assert(sub[0] == cands@[i as int]@);
        let c = chars_of(cands[i].as_str());
        if starts_with_str(&c, p) {
            return Some(i);
        }
        i += 1;
    }
    None
}

/// Picks among the candidates of one key.
pub fn pick(cands: &Vec<String>) -> (r: Option<String>)
    ensures
        match pick_spec(strs(cands@)) {
            Some(id) => r matches Some(s) && s@ == id,
            None => r is None,
        },
{
    let ghost cs = strs(cands@);
    if cands.len() == 0 {
        return None;
    }
    assert(cs[0] == cands@[0]@);
    if cands.len() == 1 {
        return Some(cands[0].clone());
    }
    let prefixes: [&str; 4] = ["org.gnome.", "org.kde.", "org.gnu.", "org.freedesktop."];
    let ghost ps = prefixes@.map_values(|p: &str| p@);
    assert(ps =~= preferred_prefixes());
    let mut j: usize = 0;
    assert(ps.subrange(0, 4) =~= ps);
    while j < 4
        invariant
            j <= 4,
            cs == strs(cands@),
            cands@.len() > 1,
            cs[0] == cands@[0]@,
            ps == prefixes@.map_values(|p: &str| p@),
            prefixes@.len() == 4,
            pick_spec(cs) == pick_preferred(cs, ps.subrange(j as int, 4)),
        decreases 4 - j,
    {
        let ghost sub = ps.subrange(j as int, 4);
        assert(sub.drop_first() =~= ps.subrange(j + 1, 4));
        assert(sub[0] == prefixes@[j as int]@);
        if let Some(i) = first_prefixed(cands, prefixes[j]) {
            return Some(cands[i].clone());
        }
        j += 1;
    }
    Some(cands[0].clone())
}

/// Icons and screenshots found for one application.
#[derive(Debug, Clone)]
pub struct AppMetadata {
    pub flathub: Option<FlathubMetadata>,
    pub debian_screenshots: Vec<Screenshot>,
}

impl AppMetadata {
    /// Neither catalog had anything.
    pub fn is_empty(&self) -> (r: bool)
        ensures
            r == (self.flathub is None && self.debian_screenshots@.len() == 0),
    {
        self.flathub.is_none() && self.debian_screenshots.len() == 0
    }
}

/// A fetched image (its bytes, when the download succeeded).
#[derive(Debug, Clone)]
pub struct Screenshot {
    pub bytes: Option<Vec<u8>>,
}

#[derive(Debug, Clone)]
pub struct FlathubMetadata {
    pub component_id: String,
    pub icon_bytes: Option<Vec<u8>>,
    pub screenshots: Vec<Screenshot>,
}

/// One size variant of a Flathub screenshot: its URL, and whether the
/// catalog gave it a width.
#[derive(Debug, Clone)]
pub struct ShotSize {
    pub src: Option<String>,
    pub has_width: bool,
}

/// One Flathub screenshot: its size variants and its top-level URL.
#[derive(Debug, Clone)]
pub struct FlathubShot {
    pub sizes: Vec<ShotSize>,
    pub src: Option<String>,
}

pub open spec fn size_pick(sizes: Seq<ShotSize>, need_width: bool) -> Option<Seq<char>>
    decreases sizes.len(),
{
    if sizes.len() == 0 {
        None
    } else {
        match sizes[0].src {
            Some(s) => if !need_width || sizes[0].has_width { Some(s@) } else { size_pick(sizes.drop_first(), need_width) },
            None => size_pick(sizes.drop_first(), need_width),
        }
    }
}

/// The URL taken from a screenshot: the first sized variant with a
/// width, else the first sized variant with a URL, else the top-level
/// URL.
pub open spec fn shot_url(s: FlathubShot) -> Option<Seq<char>> {
    match size_pick(s.sizes@, true) {
        Some(u) => Some(u),
        None => match size_pick(s.sizes@, false) {
            Some(u) => Some(u),
            None => match s.src {
                Some(u) => Some(u@),
                None => None,
            },
        },
    }
}

fn size_pick_exec(sizes: &Vec<ShotSize>, need_width: bool) -> (r: Option<String>)
    ensures
        match r {
            Some(s) => size_pick(sizes@, need_width) == Some(s@),
            None => size_pick(sizes@, need_width) is None,
        },
{
    let mut i: usize = 0;
    assert(sizes@.subrange(0, sizes@.len() as int) =~= sizes@);
    while i < sizes.len()
        invariant
            i <= sizes@.len(),
            size_pick(sizes@, need_width) == size_pick(sizes@.subrange(i as int, sizes@.len() as int), need_width),
        decreases sizes@.len() - i,
    {
        let ghost sub = sizes@.subrange(i as int, sizes@.len() as int);
        assert(sub.drop_first() =~= sizes@.subrange(i + 1, sizes@.len() as int));
        assert(sub[0] == sizes@[i as int]);
        match &sizes[i].src {
            Some(s) => {
                if !need_width || sizes[i].has_width {
                    return Some(s.clone());
                }
            },
            None => {},
        }
        i += 1;
    }
    None
}

pub open spec fn shots_urls(shots: Seq<FlathubShot>) -> Seq<Seq<char>>
    decreases shots.len(),
{
    if shots.len() == 0 {
        Seq::empty()
    } else {
        shots_urls(shots.drop_last()) + match shot_url(shots.last()) {
            Some(u) => seq![u],
            None => Seq::empty(),
        }
    }
}

/// The URLs of the first screenshots (at most three).
pub fn flathub_screenshot_urls(shots: &Vec<FlathubShot>) -> (r: Vec<String>)
    ensures
        strs(r@) == shots_urls(shots@.take(if shots@.len() < 3 { shots@.len() as int } else { 3 })),
{
    let n: usize = if shots.len() < SCREENSHOT_PREFETCH { shots.len() } else { SCREENSHOT_PREFETCH };
    let mut out: Vec<String> = Vec::new();
    let mut i: usize = 0;
    assert(shots@.take(0) =~= Seq::<FlathubShot>::empty());
    assert(strs(out@) =~= Seq::<Seq<char>>::empty());
    while i < n
        invariant
            i <= n <= shots@.len(),
            strs(out@) == shots_urls(shots@.take(i as int)),
        decreases n - i,
    {
        assert(shots@.take(i + 1).drop_last() =~= shots@.take(i as int));
        assert(shots@.take(i + 1).last() == shots@[i as int]);
        let s = &shots[i];
        let ghost before = strs(out@);
        let pick = match size_pick_exec(&s.sizes, true) {
            Some(u) => Some(u),
            None => match size_pick_exec(&s.sizes, false) {
                Some(u) => Some(u),
                None => match &s.src {
                    Some(u) => Some(u.clone()),
                    None => None,
                },
            },
        };
        match pick {
            Some(u) => {
                out.push(u);
                assert(strs(out@) =~= before.push(u@));
            },
            None => {
                assert(before + Seq::<Seq<char>>::empty() =~= before);
            },
        }
        i += 1;
    }
    out
}

/// One Debian screenshot entry.
#[derive(Debug, Clone)]
pub struct DebianShot {
    pub large_image_url: Option<String>,
    pub screenshot_url: Option<String>,
}

pub open spec fn debian_url(s: DebianShot) -> Option<Seq<char>> {
    match s.large_image_url {
        Some(u) => Some(u@),
        None => match s.screenshot_url {
            Some(u) => Some(u@),
            None => None,
        },
    }
}

pub open spec fn debian_urls_spec(shots: Seq<DebianShot>) -> Seq<Seq<char>>
    decreases shots.len(),
{
    if shots.len() == 0 {
        Seq::empty()
    } else {
        debian_urls_spec(shots.drop_last()) + match debian_url(shots.last()) {
            Some(u) => seq![u],
            None => Seq::empty(),
        }
    }
}

/// The first three URLs among the entries (the large image preferred).
pub fn debian_screenshot_urls(shots: &Vec<DebianShot>) -> (r: Vec<String>)
    ensures
        strs(r@) == debian_urls_spec(shots@).take(
            if debian_urls_spec(shots@).len() < 3 { debian_urls_spec(shots@).len() as int } else { 3 }),
{
    let mut out: Vec<String> = Vec::new();
    let mut i: usize = 0;
    assert(shots@.subrange(0, 0) =~= Seq::<DebianShot>::empty());
    assert(strs(out@) =~= Seq::<Seq<char>>::empty());
    while i < shots.len() && out.len() < SCREENSHOT_PREFETCH
        invariant
            i <= shots@.len(),
            out@.len() <= 3,
            strs(out@) == debian_urls_spec(shots@.subrange(0, i as int)),
        decreases shots@.len() - i,
    {
        assert(shots@.subrange(0, i + 1).drop_last() =~= shots@.subrange(0, i as int));
        let s = &shots[i];
        let ghost before = strs(out@);
        let u = match &s.large_image_url {
            Some(u) => Some(u.clone()),
            None => match &s.screenshot_url {
                Some(u) => Some(u.clone()),
                None => None,
            },
        };
        match u {
            Some(u) => {
                out.push(u);
                assert(strs(out@) =~= before.push(u@));
            },
            None => {
                assert(before + Seq::<Seq<char>>::empty() =~= before);
            },
        }
        i += 1;
    }
    proof {
        lemma_urls_prefix(shots@, i as int);
        let all = debian_urls_spec(shots@);
        let pre = debian_urls_spec(shots@.subrange(0, i as int));
        if i == shots@.len() {
            assert(shots@.subrange(0, i as int) =~= shots@);
            assert(all.take(all.len() as int) =~= all);
        } else {
            assert(pre.len() == 3);
            assert(all.take(3) =~= pre);
        }
    }
    out
}

proof fn lemma_urls_prefix(shots: Seq<DebianShot>, i: int)
    requires
        0 <= i <= shots.len(),
    ensures
        debian_urls_spec(shots.subrange(0, i)).is_prefix_of(debian_urls_spec(shots)),
    decreases shots.len() - i,
{
    if i < shots.len() {
        lemma_urls_prefix(shots, i + 1);
        assert(shots.subrange(0, i + 1).drop_last() =~= shots.subrange(0, i));
    } else {
        assert(shots.subrange(0, i) =~= shots);
    }
}

/// `FLATHUB/appstream/ID`.
pub fn flathub_app_url(id: &str) -> (r: String)
    ensures
        r@ == FLATHUB_API@ + "/appstream/"@ + id@,
{
    let mut v: Vec<char> = Vec::new();
    push_str(&mut v, FLATHUB_API);
    push_str(&mut v, "/appstream/");
    push_str(&mut v, id);
    string_of(&v)
}

/// `DEBIAN/NAME`.
pub fn debian_url_for(name: &str) -> (r: String)
    ensures
        r@ == DEBIAN_SCREENSHOTS_API@ + "/"@ + name@,
{
    let mut v: Vec<char> = Vec::new();
    push_str(&mut v, DEBIAN_SCREENSHOTS_API);
    push_str(&mut v, "/");
    push_str(&mut v, name);
    string_of(&v)
}

/// Whether an image body of `len` bytes is kept.
pub fn image_size_ok(len: usize) -> (r: bool)
    ensures
        r == (len <= MAX_IMAGE_BYTES),
{
    len <= MAX_IMAGE_BYTES
}

} // verus!
