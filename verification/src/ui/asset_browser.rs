//! Asset browser — classify files by extension, list assets sorted by name, filter by kind.

use vstd::prelude::*;
use crate::order::{text_lt, chars_lt, lemma_text_lt_irreflexive, lemma_text_lt_transitive, lemma_text_lt_total, lemma_text_lt_asymmetric};
use crate::text::{decimal, f64_of_u64, f64_of_u64_exec, one_decimal, push_decimal, push_one_decimal};

verus! {

#[verifier::external_type_specification]
#[verifier::external_body]
pub struct ExPathBuf(std::path::PathBuf);

/// Recognized asset types.
#[derive(Debug, Clone, Copy, PartialEq, Eq, Structural)]
#[non_exhaustive]
pub enum AssetKind {
    Texture,
    Audio,
    Scene,
    Unknown,
}

/// ASCII upper-case letters folded to lower case; every other character kept.
pub open spec fn ascii_lower(c: char) -> char {
    if 'A' <= c && c <= 'Z' {
        ((c as u32) + 32) as char
    } else {
        c
    }
}

/// Lower-cased extension. On the extensions recognised below this agrees with
/// `str::to_lowercase`: the only non-ASCII characters whose lower case is ASCII are
/// the Kelvin sign (to `k`, which no recognised extension holds) and capital I with
/// dot (to two characters).
pub open spec fn lower(s: Seq<char>) -> Seq<char> {
    s.map_values(|c: char| ascii_lower(c))
}

/// The asset kind of a file extension, compared case-insensitively.
pub open spec fn kind_of_extension(ext: Seq<char>) -> AssetKind {
    let l = lower(ext);
    if l == "png"@ || l == "jpg"@ || l == "jpeg"@ || l == "bmp"@ || l == "tga"@ || l == "webp"@
        || l == "tiff"@ {
        AssetKind::Texture
    } else if l == "wav"@ || l == "mp3"@ || l == "ogg"@ || l == "flac"@ || l == "aiff"@ {
        AssetKind::Audio
    } else if l == "toml"@ {
        AssetKind::Scene
    } else {
        AssetKind::Unknown
    }
}

/// The badge label of a kind.
pub open spec fn kind_label(k: AssetKind) -> Seq<char> {
    match k {
        AssetKind::Texture => "IMG"@,
        AssetKind::Audio => "SND"@,
        AssetKind::Scene => "SCN"@,
        AssetKind::Unknown => "???"@,
    }
}

/// The characters of `s`.
pub(crate) fn chars_of(s: &str) -> (r: Vec<char>)
    ensures
        r@ == s@,
{
    let n = s.unicode_len();
    let mut out: Vec<char> = Vec::new();
    let mut i: usize = 0;
    while i < n
        invariant
            n == s@.len(),
            i <= n,
            out@ == s@.take(i as int),
        decreases n - i,
    {
        let c = s.get_char(i);
        out.push(c);
        proof {
            assert(s@.take(i + 1) == s@.take(i as int).push(c));
        }
        i = i + 1;
    }
    proof {
        assert(s@.take(n as int) == s@);
    }
    out
}

/// Whether `a` equals the string `lit`.
fn chars_equal(a: &Vec<char>, lit: &str) -> (r: bool)
    ensures
        r == (a@ == lit@),
{
    let b = chars_of(lit);
    if a.len() != b.len() {
        return false;
    }
    let mut i: usize = 0;
    while i < a.len()
        invariant
            a@.len() == b@.len(),
            b@ == lit@,
            i <= a@.len(),
            forall|j: int| 0 <= j < i ==> a@[j] == b@[j],
        decreases a@.len() - i,
    {
        if a[i] != b[i] {
            proof {
                assert(a@[i as int] != b@[i as int]);
            }
            return false;
        }
        i = i + 1;
    }
    proof {
        assert(a@ =~= b@);
    }
    true
}

impl AssetKind {
    /// Classify a file by extension (case-insensitive).
    pub fn from_extension(ext: &str) -> (r: Self)
        ensures
            r == kind_of_extension(ext@),
    {
        let raw = chars_of(ext);
        let mut low: Vec<char> = Vec::new();
        let mut i: usize = 0;
        while i < raw.len()
            invariant
                i <= raw@.len(),
                low@ == lower(raw@.take(i as int)),
            decreases raw@.len() - i,
        {
            let c = raw[i];
            let l = if 'A' <= c && c <= 'Z' {
                ((c as u8) + 32) as char
            } else {
                c
            };
            low.push(l);
            proof {
                assert(raw@.take(i + 1) == raw@.take(i as int).push(c));
                assert(lower(raw@.take(i + 1)) =~= lower(raw@.take(i as int)).push(ascii_lower(c)));
            }
            i = i + 1;
        }
        proof {
            assert(raw@.take(raw@.len() as int) == raw@);
        }
        if chars_equal(&low, "png") || chars_equal(&low, "jpg") || chars_equal(&low, "jpeg")
            || chars_equal(&low, "bmp") || chars_equal(&low, "tga") || chars_equal(&low, "webp")
            || chars_equal(&low, "tiff") {
            AssetKind::Texture
        } else if chars_equal(&low, "wav") || chars_equal(&low, "mp3") || chars_equal(&low, "ogg")
            || chars_equal(&low, "flac") || chars_equal(&low, "aiff") {
            AssetKind::Audio
        } else if chars_equal(&low, "toml") {
            AssetKind::Scene
        } else {
            AssetKind::Unknown
        }
    }

    /// Icon/label for display.
    pub fn label(self) -> (r: &'static str)
        ensures
            r@ == kind_label(self),
    {
        match self {
            AssetKind::Texture => "IMG",
            AssetKind::Audio => "SND",
            AssetKind::Scene => "SCN",
            AssetKind::Unknown => "???",
        }
    }
}

/// A single asset entry in the browser.
#[derive(Debug)]
pub struct AssetEntry {
    /// File name (without path).
    pub name: String,
    /// Full path.
    pub path: std::path::PathBuf,
    /// Asset type.
    pub kind: AssetKind,
    /// File size in bytes.
    pub size: u64,
}

/// State for the asset browser.
pub struct AssetBrowser {
    /// Root directory being browsed.
    pub root: Option<std::path::PathBuf>,
    /// Scanned asset entries.
    pub entries: Vec<AssetEntry>,
    /// Currently selected asset index.
    pub selected: Option<usize>,
    /// Filter by asset kind (None = show all).
    pub filter: Option<AssetKind>,
}

/// A directory entry as read from disk: its file name, its extension (empty when it
/// has none), its path, whether it is a regular file, and its size in bytes.
#[derive(Debug)]
pub struct ListedFile {
    pub name: String,
    pub extension: String,
    pub path: std::path::PathBuf,
    pub is_file: bool,
    pub size: u64,
}

/// A listed file is an asset when it is a regular file with a recognised extension.
pub open spec fn is_asset_file(f: ListedFile) -> bool {
    f.is_file && kind_of_extension(f.extension@) != AssetKind::Unknown
}

/// The browser entry for a listed asset file.
pub open spec fn entry_for(f: ListedFile) -> AssetEntry {
    AssetEntry { name: f.name, path: f.path, kind: kind_of_extension(f.extension@), size: f.size }
}

/// The asset entries of a listing, in listing order.
pub open spec fn listed_assets(listing: Seq<ListedFile>) -> Seq<AssetEntry> {
    listing.filter(|f: ListedFile| is_asset_file(f)).map_values(|f: ListedFile| entry_for(f))
}

/// Holds of entries whose name is `n`.
pub open spec fn named(n: Seq<char>) -> spec_fn(AssetEntry) -> bool {
    |e: AssetEntry| e.name@ == n
}

/// Entries in non-decreasing name order.
pub open spec fn sorted_by_name(s: Seq<AssetEntry>) -> bool {
    forall|i: int, j: int| 0 <= i < j < s.len() ==> !text_lt(#[trigger] s[j].name@, #[trigger] s[i].name@)
}

/// `out` is `input` sorted by name with entries of equal name kept in input order:
/// sorted, and for every name the entries carrying it appear as in `input`.
pub open spec fn stable_sorted_by_name(out: Seq<AssetEntry>, input: Seq<AssetEntry>) -> bool {
    &&& sorted_by_name(out)
    &&& forall|n: Seq<char>| #[trigger] out.filter(named(n)) == input.filter(named(n))
}

/// Inserting `x` after every entry that does not sort after it keeps the order sorted and
/// appends `x` to the entries of its own name.
proof fn lemma_insert_by_name(s: Seq<AssetEntry>, p: int, x: AssetEntry)
    requires
        sorted_by_name(s),
        0 <= p <= s.len(),
        forall|q: int| 0 <= q < p ==> !text_lt(x.name@, #[trigger] s[q].name@),
        p < s.len() ==> text_lt(x.name@, s[p].name@),
    ensures
        sorted_by_name(s.insert(p, x)),
        forall|n: Seq<char>| #[trigger] s.insert(p, x).filter(named(n)) == if x.name@ == n {
            s.filter(named(n)).push(x)
        } else {
            s.filter(named(n))
        },
{
    broadcast use vstd::seq_lib::group_seq_lib_default;
    let t = s.insert(p, x);
    // every entry from p on sorts strictly after x
    assert forall|j: int| p <= j < s.len() implies text_lt(x.name@, #[trigger] s[j].name@) by {
        if j > p {
            lemma_text_lt_total(s[p].name@, s[j].name@);
            if text_lt(s[p].name@, s[j].name@) {
                lemma_text_lt_transitive(x.name@, s[p].name@, s[j].name@);
            }
        }
    }
    assert forall|i: int, j: int| 0 <= i < j < t.len() implies !text_lt(#[trigger] t[j].name@, #[trigger] t[i].name@) by {
        if j < p {
            assert(t[i] == s[i] && t[j] == s[j]);
        } else if j == p {
            assert(t[i] == s[i] && t[j] == x);
        } else if i == p {
            assert(t[i] == x && t[j] == s[j - 1]);
            lemma_text_lt_asymmetric(x.name@, s[j - 1].name@);
        } else if i < p {
            assert(t[i] == s[i] && t[j] == s[j - 1]);
        } else {
            assert(t[i] == s[i - 1] && t[j] == s[j - 1]);
        }
    }
    assert(s =~= s.take(p) + s.skip(p));
    assert(t =~= s.take(p) + seq![x] + s.skip(p));
    assert forall|n: Seq<char>| #[trigger] t.filter(named(n)) == if x.name@ == n {
        s.filter(named(n)).push(x)
    } else {
        s.filter(named(n))
    } by {
        let pred = named(n);
        Seq::<AssetEntry>::empty().lemma_filter_push(x, pred);
        assert(seq![x] =~= Seq::<AssetEntry>::empty().push(x));
        assert(Seq::<AssetEntry>::empty().filter(pred) =~= Seq::<AssetEntry>::empty()) by {
            reveal(Seq::filter);
        }
        if x.name@ == n {
            let tail = s.skip(p);
            assert forall|k: int| 0 <= k < tail.len() implies !pred(#[trigger] tail[k]) by {
                assert(tail[k] == s[p + k]);
                lemma_text_lt_irreflexive(x.name@);
            }
            assert(tail.all(|e: AssetEntry| !pred(e)));
            tail.lemma_all_neg_filter_empty(pred);
            assert(tail.filter(pred) =~= Seq::<AssetEntry>::empty());
            assert(t.filter(pred) =~= s.take(p).filter(pred).push(x));
            assert(s.filter(pred) =~= s.take(p).filter(pred));
        } else {
            assert(t.filter(pred) =~= s.take(p).filter(pred) + s.skip(p).filter(pred));
        }
    }
}

/// Two name-sorted lists that hold, name by name, the same entries in the same order are
/// the same list.
proof fn lemma_sorted_same_groups_equal(a: Seq<AssetEntry>, b: Seq<AssetEntry>)
    requires
        sorted_by_name(a),
        sorted_by_name(b),
        forall|n: Seq<char>| #[trigger] a.filter(named(n)) == b.filter(named(n)),
    ensures
        a == b,
    decreases a.len() + b.len(),
{
    broadcast use vstd::seq_lib::group_seq_lib_default;
    if a.len() == 0 || b.len() == 0 {
        if a.len() > 0 {
            lemma_first_in_group(a, named(a[0].name@));
            assert(b.filter(named(a[0].name@)).len() > 0);
        }
        if b.len() > 0 {
            lemma_first_in_group(b, named(b[0].name@));
            assert(a.filter(named(b[0].name@)).len() > 0);
        }
        assert(a =~= b);
    } else {
        let x = a[0];
        let y = b[0];
        let ta = a.drop_first();
        let tb = b.drop_first();
        assert(a =~= seq![x] + ta);
        assert(b =~= seq![y] + tb);
        lemma_first_in_group(a, named(x.name@));
        lemma_first_in_group(b, named(y.name@));
        // the smallest names agree
        lemma_text_lt_total(x.name@, y.name@);
        if text_lt(x.name@, y.name@) {
            let g = b.filter(named(x.name@));
            assert(g.len() > 0);
            assert(named(x.name@)(g[0]));
            assert(g.contains(g[0]));
            b.lemma_filter_contains_rev(named(x.name@), g[0]);
            let j = choose|j: int| 0 <= j < b.len() && b[j] == g[0];
            assert(!text_lt(b[j].name@, b[0].name@) || j == 0);
            lemma_text_lt_irreflexive(x.name@);
        }
        if text_lt(y.name@, x.name@) {
            let g = a.filter(named(y.name@));
            assert(g.len() > 0);
            assert(named(y.name@)(g[0]));
            assert(g.contains(g[0]));
            a.lemma_filter_contains_rev(named(y.name@), g[0]);
            let j = choose|j: int| 0 <= j < a.len() && a[j] == g[0];
            assert(!text_lt(a[j].name@, a[0].name@) || j == 0);
            lemma_text_lt_irreflexive(y.name@);
        }
        assert(x.name@ == y.name@);
        assert(x == y) by {
            assert(a.filter(named(x.name@))[0] == x);
            assert(b.filter(named(x.name@))[0] == y);
        }
        assert forall|n: Seq<char>| #[trigger] ta.filter(named(n)) == tb.filter(named(n)) by {
            ta.lemma_filter_prepend(x, named(n));
            tb.lemma_filter_prepend(y, named(n));
            let pre = if named(n)(x) { seq![x] } else { Seq::<AssetEntry>::empty() };
            assert(a.filter(named(n)) == pre + ta.filter(named(n)));
            assert(b.filter(named(n)) == pre + tb.filter(named(n)));
            assert(ta.filter(named(n)) =~= a.filter(named(n)).subrange(pre.len() as int, a.filter(named(n)).len() as int));
            assert(tb.filter(named(n)) =~= b.filter(named(n)).subrange(pre.len() as int, b.filter(named(n)).len() as int));
        }
        assert(sorted_by_name(ta)) by {
            assert forall|i: int, j: int| 0 <= i < j < ta.len() implies !text_lt(#[trigger] ta[j].name@, #[trigger] ta[i].name@) by {
                assert(ta[i] == a[i + 1] && ta[j] == a[j + 1]);
            }
        }
        assert(sorted_by_name(tb)) by {
            assert forall|i: int, j: int| 0 <= i < j < tb.len() implies !text_lt(#[trigger] tb[j].name@, #[trigger] tb[i].name@) by {
                assert(tb[i] == b[i + 1] && tb[j] == b[j + 1]);
            }
        }
        lemma_sorted_same_groups_equal(ta, tb);
    }
}

/// The group of the first entry's name starts with that entry.
proof fn lemma_first_in_group(s: Seq<AssetEntry>, p: spec_fn(AssetEntry) -> bool)
    requires
        s.len() > 0,
        p(s[0]),
    ensures
        s.filter(p).len() > 0,
        s.filter(p)[0] == s[0],
{
    s.drop_first().lemma_filter_prepend(s[0], p);
    assert(s =~= seq![s[0]] + s.drop_first());
}

/// The entries of a listing after a scan are determined: there is exactly one stable
/// name order of a listing's assets.
pub proof fn law_scan_order_is_unique(a: Seq<AssetEntry>, b: Seq<AssetEntry>, input: Seq<AssetEntry>)
    requires
        stable_sorted_by_name(a, input),
        stable_sorted_by_name(b, input),
    ensures
        a == b,
{
    lemma_sorted_same_groups_equal(a, b);
}

/// Whether an entry is shown under a kind filter (`None` shows everything).
pub open spec fn shown_by(filter: Option<AssetKind>) -> spec_fn(AssetEntry) -> bool {
    |e: AssetEntry| match filter {
        Some(k) => e.kind == k,
        None => true,
    }
}

impl Default for AssetBrowser {
    fn default() -> (r: Self)
        ensures
            r.root.is_none(),
            r.entries@.len() == 0,
            r.selected.is_none(),
            r.filter.is_none(),
    {
        AssetBrowser { root: None, entries: Vec::new(), selected: None, filter: None }
    }
}

impl AssetBrowser {
    /// Replace the listing with the assets of a directory read from disk: the regular files
    /// with a recognised extension, sorted by name (stably), with the selection cleared.
    pub fn scan_listing(&mut self, dir: std::path::PathBuf, listing: Vec<ListedFile>)
        ensures
            final(self).root == Some(dir),
            final(self).selected.is_none(),
            final(self).filter == old(self).filter,
            stable_sorted_by_name(final(self).entries@, listed_assets(listing@)),
    {
        let ghost orig = listing@;
        let ghost is_asset = |f: ListedFile| is_asset_file(f);
        let ghost to_entry = |f: ListedFile| entry_for(f);
        let mut rest = listing;
        let mut out: Vec<AssetEntry> = Vec::new();
        let mut keys: Vec<Vec<char>> = Vec::new();
        let ghost mut k: int = 0;
        proof {
            assert(orig.skip(0) =~= orig);
            assert(orig.take(0).filter(is_asset) =~= Seq::<ListedFile>::empty()) by {
                reveal(Seq::filter);
            }
            assert(listed_assets(orig.take(0)) =~= Seq::<AssetEntry>::empty());
            assert forall|n: Seq<char>| #[trigger] out@.filter(named(n)) == listed_assets(orig.take(0)).filter(named(n)) by {
                reveal(Seq::filter);
            }
        }
        while rest.len() > 0
            invariant
                0 <= k <= orig.len(),
                rest@ == orig.skip(k),
                keys@.len() == out@.len(),
                forall|q: int| 0 <= q < keys@.len() ==> (#[trigger] keys@[q])@ == out@[q].name@,
                sorted_by_name(out@),
                forall|n: Seq<char>| #[trigger] out@.filter(named(n)) == listed_assets(orig.take(k)).filter(named(n)),
                is_asset == (|f: ListedFile| is_asset_file(f)),
                to_entry == (|f: ListedFile| entry_for(f)),
            decreases rest@.len(),
        {
            let f = rest.remove(0);
            proof {
                assert(f == orig[k]);
                assert(orig.take(k + 1) =~= orig.take(k).push(f));
                assert(rest@ =~= orig.skip(k + 1));
                orig.take(k).lemma_filter_push(f, is_asset);
                orig.take(k).filter(is_asset).lemma_push_map_commute(to_entry, f);
            }
            let kind = AssetKind::from_extension(f.extension.as_str());
            let is_asset_exec = f.is_file && match kind {
                AssetKind::Unknown => false,
                _ => true,
            };
            if is_asset_exec {
                let key = chars_of(f.name.as_str());
                let mut p: usize = 0;
                while p < keys.len() && !chars_lt(&key, &keys[p])
                    invariant
                        p <= keys@.len(),
                        keys@.len() == out@.len(),
                        forall|q: int| 0 <= q < keys@.len() ==> (#[trigger] keys@[q])@ == out@[q].name@,
                        forall|q: int| 0 <= q < p ==> !text_lt(key@, #[trigger] out@[q].name@),
                    decreases keys@.len() - p,
                {
                    p = p + 1;
                }
                let entry = AssetEntry { name: f.name, path: f.path, kind, size: f.size };
                proof {
                    assert(entry == entry_for(f));
                    lemma_insert_by_name(out@, p as int, entry);
                    assert forall|n: Seq<char>| #[trigger] out@.insert(p as int, entry).filter(named(n))
                        == listed_assets(orig.take(k + 1)).filter(named(n)) by {
                        assert(listed_assets(orig.take(k + 1)) =~= listed_assets(orig.take(k)).push(entry));
                        listed_assets(orig.take(k)).lemma_filter_push(entry, named(n));
                    }
                }
                let ghost old_keys = keys@;
                let ghost old_out = out@;
                out.insert(p, entry);
                keys.insert(p, key);
                proof {
                    assert forall|q: int| 0 <= q < keys@.len() implies (#[trigger] keys@[q])@ == out@[q].name@ by {
                        if q > p {
                            assert(keys@[q] == old_keys[q - 1]);
                            assert(out@[q] == old_out[q - 1]);
                        }
                    }
                }
            } else {
                proof {
                    assert(listed_assets(orig.take(k + 1)) =~= listed_assets(orig.take(k)));
                }
            }
            proof {
                k = k + 1;
            }
        }
        proof {
            assert(orig.take(k) =~= orig);
        }
        self.root = Some(dir);
        self.entries = out;
        self.selected = None;
    }

    /// The entries shown under the current filter, in list order.
    pub fn filtered_entries(&self) -> (r: Vec<&AssetEntry>)
        ensures
            r@.unref() == self.entries@.filter(shown_by(self.filter)),
    {
        let mut out: Vec<&AssetEntry> = Vec::new();
        let mut i: usize = 0;
        while i < self.entries.len()
            invariant
                i <= self.entries@.len(),
                out@.unref() == self.entries@.take(i as int).filter(shown_by(self.filter)),
            decreases self.entries@.len() - i,
        {
            let e = &self.entries[i];
            proof {
                assert(self.entries@.take(i + 1) == self.entries@.take(i as int).push(*e));
                self.entries@.take(i as int).lemma_filter_push(*e, shown_by(self.filter));
            }
            let show = match self.filter {
                Some(k) => e.kind == k,
                None => true,
            };
            if show {
                let ghost before = out@;
                out.push(e);
                proof {
                    assert(out@.unref() =~= before.unref().push(*e));
                }
            }
            i = i + 1;
        }
        proof {
            assert(self.entries@.take(self.entries@.len() as int) == self.entries@);
        }
        out
    }

    /// The currently selected asset, if the selection points at an entry.
    pub fn selected_asset(&self) -> (r: Option<&AssetEntry>)
        ensures
            match self.selected {
                Some(i) if i < self.entries@.len() => r == Some(&self.entries@[i as int]),
                _ => r.is_none(),
            },
    {
        match self.selected {
            Some(i) => {
                if i < self.entries.len() {
                    Some(&self.entries[i])
                } else {
                    None
                }
            },
            None => None,
        }
    }
}

/// `format_size` output: whole bytes below 1 KiB, else the size in KiB or MiB with one
/// decimal, as `{:.1}` prints the `f64` quotient.
pub open spec fn size_text(bytes: u64) -> Seq<char> {
    if bytes < 1024 {
        decimal(bytes as nat) + " B"@
    } else if bytes < 0x10_0000 {
        one_decimal(f64_of_u64(bytes), 1024) + " KB"@
    } else {
        one_decimal(f64_of_u64(bytes), 0x10_0000) + " MB"@
    }
}

/// Format file size for display.
pub fn format_size(bytes: u64) -> (r: String)
    ensures
        r@ == size_text(bytes),
{
    let mut out = String::new();
    if bytes < 1024 {
        push_decimal(&mut out, bytes);
        out.append(" B");
    } else if bytes < 0x10_0000 {
        push_one_decimal(&mut out, f64_of_u64_exec(bytes), 1024);
        out.append(" KB");
    } else {
        push_one_decimal(&mut out, f64_of_u64_exec(bytes), 0x10_0000);
        out.append(" MB");
    }
    out
}

} // verus!
