use vstd::prelude::*;
use vstd::multiset::Multiset;
use crate::error::{TuggyError, TuggyErrorView};
use crate::pattern::{regex_capture, regex_is_valid, regex_matches, Pattern};
use crate::text::{
    chars_less, chars_lt, chars_of, lemma_chars_lt_irreflexive, lemma_chars_lt_total,
    lemma_chars_lt_transitive,
};

verus! {

broadcast use vstd::seq_lib::group_to_multiset_ensures;

/// A Docker platform, such as `linux/amd64` or `linux/arm/v7`.
#[derive(Clone, Debug, Default, PartialEq, Eq, PartialOrd, Ord)]
pub struct Platform {
    /// The operating system.
    pub os: String,
    /// The architecture, with its variant if it has one.
    pub arch: String,
}

/// The mathematical value of a platform: its two components.
#[verifier::ext_equal]
pub struct PlatformView {
    pub os: Seq<char>,
    pub arch: Seq<char>,
}

impl View for Platform {
    type V = PlatformView;

    open spec fn view(&self) -> PlatformView {
        PlatformView { os: self.os@, arch: self.arch@ }
    }
}

/// The text of a platform: `os/arch`.
pub open spec fn render(p: PlatformView) -> Seq<char> {
    p.os + seq!['/'] + p.arch
}

/// The pattern of a platform identifier: an operating system without `/`,
/// a `/`, then the architecture.
pub const PLATFORM_PATTERN: &'static str = "^(?P<os>[^/]+)/(?P<arch>.+)$";

/// The platform that the identifier `s` denotes, if any: the `os` and `arch`
/// groups of the platform pattern's match in `s`.
pub open spec fn parse_platform(s: Seq<char>) -> Option<PlatformView> {
    let pat = PLATFORM_PATTERN@;
    let os = regex_capture(pat, s, "os"@);
    let arch = regex_capture(pat, s, "arch"@);
    if regex_matches(pat, s) && os is Some && arch is Some {
        Some(PlatformView { os: os->0, arch: arch->0 })
    } else {
        None
    }
}

/// The message of the error for an identifier that denotes no platform.
pub open spec fn invalid_platform_message(s: Seq<char>) -> Seq<char> {
    "invalid platform: "@ + s
}

/// `r` is what parsing the identifier `s` gives: the platform it denotes, or
/// the error that it denotes none.
pub open spec fn from_string_outcome(s: Seq<char>, r: Result<Platform, TuggyError>) -> bool {
    match r {
        Ok(p) => parse_platform(s) == Some(p@),
        Err(e) => parse_platform(s) is None && e@ == TuggyErrorView::IOError(invalid_platform_message(s)),
    }
}

impl Platform {
    /// Parses a platform identifier of the form `os/arch` with the platform
    /// pattern.
    pub fn from_string(s: &str) -> (r: Result<Platform, TuggyError>)
        requires
            regex_is_valid(PLATFORM_PATTERN@),
        ensures
            from_string_outcome(s@, r),
    {
        let pattern = match Pattern::new(String::from_str(PLATFORM_PATTERN)) {
            Ok(p) => p,
            Err(_) => {
                proof {
                    assert(false);
                }
                return Err(TuggyError::RegexParseError(String::new()));
            },
        };
        if pattern.is_match(s) {
            match (pattern.capture(s, "os"), pattern.capture(s, "arch")) {
                (Some(os), Some(arch)) => {
                    return Ok(Platform { os, arch });
                },
                _ => {},
            }
        }
        let msg = String::from_str("invalid platform: ").concat(s);
        Err(TuggyError::IOError(msg))
    }

    /// Checks that the platform pattern compiles, then parses `s` as
    /// `from_string` does; `None` when the pattern does not compile.
    pub fn try_from_string(s: &str) -> (r: Option<Result<Platform, TuggyError>>)
        ensures
            r is None <==> !regex_is_valid(PLATFORM_PATTERN@),
            r is Some ==> from_string_outcome(s@, r->0),
    {
        match Pattern::new(String::from_str(PLATFORM_PATTERN)) {
            Ok(p) => {
                let _ = p.as_str();
                Some(Platform::from_string(s))
            },
            Err(_) => None,
        }
    }

    /// Renders the platform as `os/arch`.
    pub fn to_string(&self) -> (s: String)
        ensures
            s@ == render(self@),
    {
        proof {
            reveal_strlit("/");
        }
        String::from_str(self.os.as_str()).concat("/").concat(self.arch.as_str())
    }
}


// ---------------------------------------------------------------------------
// Order
// ---------------------------------------------------------------------------

/// The order of platforms: by operating system, then by architecture, each
/// compared character by character.
pub open spec fn platform_lt(a: PlatformView, b: PlatformView) -> bool {
    chars_lt(a.os, b.os) || (a.os == b.os && chars_lt(a.arch, b.arch))
}

/// Platforms are ordered by operating system first; the architecture
/// decides only between platforms of the same operating system.
pub proof fn lemma_platform_lt_os_first(a: PlatformView, b: PlatformView)
    ensures
        a.os != b.os ==> (platform_lt(a, b) <==> chars_lt(a.os, b.os)),
        a.os == b.os ==> (platform_lt(a, b) <==> chars_lt(a.arch, b.arch)),
{
    lemma_chars_lt_irreflexive(a.os);
}

/// `s` is in ascending platform order.
pub open spec fn sorted(s: Seq<PlatformView>) -> bool {
    forall|i: int, j: int| 0 <= i < j < s.len() ==> !platform_lt(#[trigger] s[j], #[trigger] s[i])
}

/// The platform order is a strict total order.
pub proof fn lemma_platform_lt_strict_total(a: PlatformView, b: PlatformView, c: PlatformView)
    ensures
        !platform_lt(a, a),
        platform_lt(a, b) && platform_lt(b, c) ==> platform_lt(a, c),
        a != b ==> platform_lt(a, b) || platform_lt(b, a),
{
    lemma_chars_lt_irreflexive(a.os);
    lemma_chars_lt_irreflexive(a.arch);
    if platform_lt(a, b) && platform_lt(b, c) {
        if chars_lt(a.os, b.os) && chars_lt(b.os, c.os) {
            lemma_chars_lt_transitive(a.os, b.os, c.os);
        }
        if a.os == b.os && b.os == c.os {
            lemma_chars_lt_transitive(a.arch, b.arch, c.arch);
        }
    }
    if a != b {
        if a.os != b.os {
            lemma_chars_lt_total(a.os, b.os);
        } else {
            assert(a.arch != b.arch);
            lemma_chars_lt_total(a.arch, b.arch);
        }
    }
}

impl Platform {
    /// Whether `self` comes strictly before `other` in platform order.
    pub fn less_than(&self, other: &Platform) -> (r: bool)
        ensures
            r == platform_lt(self@, other@),
    {
        let a = chars_of(self.os.as_str());
        let b = chars_of(other.os.as_str());
        if chars_less(&a, &b) {
            true
        } else if self.os == other.os {
            let c = chars_of(self.arch.as_str());
            let d = chars_of(other.arch.as_str());
            chars_less(&c, &d)
        } else {
            false
        }
    }
}

/// The views of a sequence of platforms.
pub open spec fn views(s: Seq<Platform>) -> Seq<PlatformView> {
    s.map_values(|p: Platform| p@)
}

/// `s` in ascending platform order.
pub open spec fn sort_of(s: Seq<PlatformView>) -> Seq<PlatformView> {
    choose|t: Seq<PlatformView>| sorted(t) && t.to_multiset() == s.to_multiset()
}

/// Sorting has one result: two sorted sequences with the same items are equal.
pub proof fn lemma_sorted_unique(a: Seq<PlatformView>, b: Seq<PlatformView>)
    requires
        sorted(a),
        sorted(b),
        a.to_multiset() == b.to_multiset(),
    ensures
        a == b,
    decreases a.len(),
{
    vstd::seq_lib::to_multiset_len(a);
    vstd::seq_lib::to_multiset_len(b);
    if a.len() == 0 {
        assert(b.len() == 0);
        assert(a =~= b);
    } else {
        vstd::seq_lib::to_multiset_len(a);
        vstd::seq_lib::to_multiset_len(b);
        assert(b.len() == a.len());
        assert(a.to_multiset().contains(a[0]));
        assert(b.contains(a[0]));
        let k = choose|k: int| 0 <= k < b.len() && b[k] == a[0];
        assert(b.to_multiset().contains(b[0]));
        assert(a.contains(b[0]));
        let j = choose|j: int| 0 <= j < a.len() && a[j] == b[0];
        if j > 0 {
            assert(!platform_lt(a[j], a[0]));
        } else {
            lemma_platform_lt_strict_total(a[0], a[0], a[0]);
        }
        if k > 0 {
            assert(!platform_lt(b[k], b[0]));
        } else {
            lemma_platform_lt_strict_total(b[0], b[0], b[0]);
        }
        lemma_platform_lt_strict_total(a[0], b[0], b[0]);
        assert(a[0] == b[0]);
        vstd::seq_lib::to_multiset_remove(a, 0);
        vstd::seq_lib::to_multiset_remove(b, 0);
        assert(a.remove(0) =~= a.drop_first());
        assert(b.remove(0) =~= b.drop_first());
        let a1 = a.drop_first();
        let b1 = b.drop_first();
        assert forall|x: int, y: int| 0 <= x < y < a1.len() implies !platform_lt(#[trigger] a1[y], #[trigger] a1[x]) by {
            assert(a1[y] == a[y + 1] && a1[x] == a[x + 1]);
        }
        assert forall|x: int, y: int| 0 <= x < y < b1.len() implies !platform_lt(#[trigger] b1[y], #[trigger] b1[x]) by {
            assert(b1[y] == b[y + 1] && b1[x] == b[x + 1]);
        }
        lemma_sorted_unique(a1, b1);
        assert forall|x: int| 0 <= x < a.len() implies a[x] == b[x] by {
            if x > 0 {
                assert(a[x] == a1[x - 1] && b[x] == b1[x - 1]);
            }
        }
        assert(a =~= b);
    }
}

/// A sorted sequence with the items of `s` is `sort_of(s)`.
pub proof fn lemma_sort_of(s: Seq<PlatformView>, t: Seq<PlatformView>)
    requires
        sorted(t),
        t.to_multiset() == s.to_multiset(),
    ensures
        sort_of(s) == t,
{
    let u = sort_of(s);
    assert(sorted(u) && u.to_multiset() == s.to_multiset());
    lemma_sorted_unique(u, t);
}

/// Sorts platforms into ascending platform order.
pub fn sort_platforms(v: Vec<Platform>) -> (r: Vec<Platform>)
    ensures
        sorted(views(r@)),
        views(r@).to_multiset() == views(v@).to_multiset(),
        views(r@) == sort_of(views(v@)),
{
    let ghost orig = views(v@).to_multiset();
    let ghost v0 = v@;
    let mut v = v;
    let mut r: Vec<Platform> = Vec::new();
    assert(views(r@).to_multiset() =~= Multiset::empty());
    assert(views(r@).to_multiset().add(views(v@).to_multiset()) =~= orig);
    while v.len() > 0
        invariant
            sorted(views(r@)),
            views(r@).to_multiset().add(views(v@).to_multiset()) == orig,
        decreases v@.len(),
    {
        let ghost before = v@;
        let p = v.pop().unwrap();
        proof {
            assert(views(before) =~= views(v@).push(p@));
            vstd::seq_lib::to_multiset_build(views(v@), p@);
        }
        let mut j: usize = 0;
        while j < r.len() && !p.less_than(&r[j])
            invariant
                j <= r@.len(),
                forall|i: int| 0 <= i < j ==> !platform_lt(p@, #[trigger] r@[i]@),
            decreases r@.len() - j,
        {
            j = j + 1;
        }
        let ghost old_r = views(r@);
        r.insert(j, p);
        proof {
            assert(views(r@) =~= old_r.insert(j as int, p@));
            vstd::seq_lib::to_multiset_insert(old_r, j as int, p@);
            let t = views(r@);
            assert forall|a: int, b: int| 0 <= a < b < t.len() implies !platform_lt(#[trigger] t[b], #[trigger] t[a]) by {
                if b < j {
                    assert(t[a] == old_r[a]);
                    assert(t[b] == old_r[b]);
                } else if a < j && b == j {
                    assert(t[a] == old_r[a]);
                    assert(old_r[a] == r@[a]@);
                } else if a < j && b > j {
                    assert(t[a] == old_r[a]);
                    assert(t[b] == old_r[b - 1]);
                } else if a == j {
                    assert(t[b] == old_r[b - 1]);
                    lemma_platform_lt_strict_total(p@, old_r[j as int], old_r[b - 1]);
                    lemma_platform_lt_strict_total(old_r[b - 1], p@, old_r[j as int]);
                    lemma_platform_lt_strict_total(old_r[j as int], old_r[j as int], p@);
                    if b - 1 > j {
                        assert(!platform_lt(old_r[b - 1], old_r[j as int]));
                    }
                } else {
                    assert(t[a] == old_r[a - 1]);
                    assert(t[b] == old_r[b - 1]);
                }
            }
        }
    }
    assert(views(v@).to_multiset() =~= Multiset::empty());
    assert(views(r@).to_multiset() =~= orig);
    proof {
        lemma_sort_of(views(v0), views(r@));
    }
    r
}

} // verus!
