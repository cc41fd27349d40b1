use vstd::prelude::*;
use crate::error::{TuggyError, TuggyErrorView};
use crate::pattern::{regex_capture, regex_is_valid, regex_matches, Pattern};
use crate::platform::{
    invalid_platform_message, parse_platform, sort_platforms, sorted, views, Platform,
    PlatformView, PLATFORM_PATTERN,
};
use crate::text::{lines, lines_of, split, split_str};

verus! {

/// The pattern that picks the list of available platforms out of a line of
/// `docker buildx inspect` output.
pub const BUILDX_AVAILABLE_PLATFORMS_PATTERN: &'static str = "Platforms:\\W+(?P<platforms>.+)$";

/// The capture group of `BUILDX_AVAILABLE_PLATFORMS_PATTERN` that holds the list.
pub const PLATFORMS_GROUP: &'static str = "platforms";

/// The separator between the platforms of a list.
pub const PLATFORM_LIST_SEPARATOR: &'static str = ", ";

/// `acc` followed by the platforms of `r`, or the error of `r`.
pub open spec fn prepend(acc: Seq<PlatformView>, r: Result<Seq<PlatformView>, Seq<char>>) -> Result<
    Seq<PlatformView>,
    Seq<char>,
> {
    match r {
        Ok(ps) => Ok(acc + ps),
        Err(m) => Err(m),
    }
}

/// The platforms that the identifiers `parts` denote, in order, or the
/// message of the error for the first identifier that denotes none.
pub open spec fn parse_all(parts: Seq<Seq<char>>) -> Result<Seq<PlatformView>, Seq<char>>
    decreases parts.len(),
{
    if parts.len() == 0 {
        Ok(seq![])
    } else {
        match parse_platform(parts[0]) {
            None => Err(invalid_platform_message(parts[0])),
            Some(p) => prepend(seq![p], parse_all(parts.drop_first())),
        }
    }
}

/// The platforms of a comma-separated platform list.
pub open spec fn parse_platform_list(list: Seq<char>) -> Result<Seq<PlatformView>, Seq<char>> {
    parse_all(split(list, PLATFORM_LIST_SEPARATOR@))
}

/// The message of the error for a platform line whose list cannot be taken out.
pub open spec fn invalid_list_message(line: Seq<char>) -> Seq<char> {
    "invalid platforms list: "@ + line
}

/// The platforms listed in `ls`, the lines of `docker buildx inspect` output,
/// in order of appearance, or the message of the first error: every line that
/// the platforms pattern matches contributes its list.
pub open spec fn platforms_of_lines(ls: Seq<Seq<char>>) -> Result<Seq<PlatformView>, Seq<char>>
    decreases ls.len(),
{
    if ls.len() == 0 {
        Ok(seq![])
    } else {
        let line = ls[0];
        let pat = BUILDX_AVAILABLE_PLATFORMS_PATTERN@;
        if !regex_matches(pat, line) {
            platforms_of_lines(ls.drop_first())
        } else {
            match regex_capture(pat, line, PLATFORMS_GROUP@) {
                None => Err(invalid_list_message(line)),
                Some(list) => match parse_platform_list(list) {
                    Err(m) => Err(m),
                    Ok(ps) => prepend(ps, platforms_of_lines(ls.drop_first())),
                },
            }
        }
    }
}

/// `r` is what reading the platforms out of the `docker buildx inspect`
/// output `output` gives: the listed platforms sorted, an error when none is
/// listed, or the first error met.
pub open spec fn inspect_outcome(output: Seq<char>, r: Result<Vec<Platform>, TuggyError>) -> bool {
    match platforms_of_lines(lines(output)) {
        Ok(ps) => if ps.len() == 0 {
            r is Err && r->Err_0@ == TuggyErrorView::IOError(no_platforms_message())
        } else {
            r is Ok && sorted(views(r->Ok_0@)) && views(r->Ok_0@).to_multiset() == ps.to_multiset()
        },
        Err(m) => r is Err && r->Err_0@ == TuggyErrorView::IOError(m),
    }
}

/// The message of the error for output that lists no platform.
pub open spec fn no_platforms_message() -> Seq<char> {
    "no platforms detected"@
}

proof fn lemma_prepend_assoc(a: Seq<PlatformView>, b: Seq<PlatformView>, r: Result<Seq<PlatformView>, Seq<char>>)
    ensures
        prepend(a, prepend(b, r)) == prepend(a + b, r),
{
    if let Ok(ps) = r {
        assert(a + (b + ps) =~= (a + b) + ps);
    }
}

/// Parses a comma-separated platform list such as `linux/amd64, linux/arm64`.
pub fn platforms_from_list(list: &str) -> (r: Result<Vec<Platform>, TuggyError>)
    requires
        regex_is_valid(PLATFORM_PATTERN@),
    ensures
        match parse_platform_list(list@) {
            Ok(ps) => r is Ok && views(r->Ok_0@) == ps,
            Err(m) => r is Err && r->Err_0@ == TuggyErrorView::IOError(m),
        },
{
    proof {
        reveal_strlit(", ");
    }
    let parts = split_str(list, PLATFORM_LIST_SEPARATOR);
    let ghost pv = parts@.map_values(|p: String| p@);
    let mut acc: Vec<Platform> = Vec::new();
    let mut i: usize = 0;
    assert(pv.skip(0) =~= pv);
    assert(views(acc@) =~= seq![]);
    assert(prepend(seq![], parse_all(pv)) == parse_all(pv)) by {
        if let Ok(ps) = parse_all(pv) {
            assert(seq![] + ps =~= ps);
        }
    }
    while i < parts.len()
        invariant
            pv == parts@.map_values(|p: String| p@),
            pv == split(list@, PLATFORM_LIST_SEPARATOR@),
            regex_is_valid(PLATFORM_PATTERN@),
            i <= parts@.len(),
            prepend(views(acc@), parse_all(pv.skip(i as int))) == parse_all(pv),
        decreases parts@.len() - i,
    {
        let ghost rest = pv.skip(i as int);
        assert(rest[0] == parts@[i as int]@);
        assert(rest.drop_first() =~= pv.skip(i + 1));
        match Platform::from_string(parts[i].as_str()) {
            Ok(p) => {
                let ghost old_acc = views(acc@);
                acc.push(p);
                proof {
                    assert(views(acc@) =~= old_acc + seq![p@]);
                    lemma_prepend_assoc(old_acc, seq![p@], parse_all(pv.skip(i + 1)));
                }
            },
            Err(e) => {
                return Err(e);
            },
        }
        i = i + 1;
    }
    assert(pv.skip(i as int) =~= seq![]);
    assert(views(acc@) + seq![] =~= views(acc@));
    Ok(acc)
}

/// Reads the available platforms out of `docker buildx inspect` output:
/// every line that the platforms pattern matches contributes its list; the
/// result is sorted, and an output without platforms is an error.
pub fn platforms_from_inspect_output(output: &str) -> (r: Result<Vec<Platform>, TuggyError>)
    requires
        regex_is_valid(BUILDX_AVAILABLE_PLATFORMS_PATTERN@),
        regex_is_valid(PLATFORM_PATTERN@),
    ensures
        inspect_outcome(output@, r),
{
    let pattern = match Pattern::new(String::from_str(BUILDX_AVAILABLE_PLATFORMS_PATTERN)) {
        Ok(p) => p,
        Err(_) => {
            proof {
                assert(false);
            }
            return Err(TuggyError::RegexParseError(String::new()));
        },
    };
    let ls = lines_of(output);
    let ghost lv = ls@.map_values(|l: String| l@);
    let mut acc: Vec<Platform> = Vec::new();
    let mut i: usize = 0;
    assert(lv.skip(0) =~= lv);
    assert(views(acc@) =~= seq![]);
    assert(prepend(seq![], platforms_of_lines(lv)) == platforms_of_lines(lv)) by {
        if let Ok(ps) = platforms_of_lines(lv) {
            assert(seq![] + ps =~= ps);
        }
    }
    while i < ls.len()
        invariant
            pattern@ == BUILDX_AVAILABLE_PLATFORMS_PATTERN@,
            lv == ls@.map_values(|l: String| l@),
            lv == lines(output@),
            i <= ls@.len(),
            prepend(views(acc@), platforms_of_lines(lv.skip(i as int))) == platforms_of_lines(lv),
            regex_is_valid(PLATFORM_PATTERN@),
        decreases ls@.len() - i,
    {
        let ghost rest = lv.skip(i as int);
        assert(rest[0] == ls@[i as int]@);
        assert(rest.drop_first() =~= lv.skip(i + 1));
        let line = ls[i].as_str();
        if pattern.is_match(line) {
            match pattern.capture(line, PLATFORMS_GROUP) {
                None => {
                    let msg = String::from_str("invalid platforms list: ").concat(line);
                    return Err(TuggyError::IOError(msg));
                },
                Some(list) => {
                    match platforms_from_list(list.as_str()) {
                        Err(e) => {
                            return Err(e);
                        },
                        Ok(ps) => {
                            let ghost old_acc = views(acc@);
                            let ghost psv = views(ps@);
                            let mut ps = ps;
                            acc.append(&mut ps);
                            proof {
                                assert(views(acc@) =~= old_acc + psv);
                                lemma_prepend_assoc(old_acc, psv, platforms_of_lines(lv.skip(i + 1)));
                            }
                        },
                    }
                },
            }
        }
        i = i + 1;
    }
    assert(lv.skip(i as int) =~= seq![]);
    assert(views(acc@) + seq![] =~= views(acc@));
    if acc.len() == 0 {
        return Err(TuggyError::IOError(String::from_str("no platforms detected")));
    }
    Ok(sort_platforms(acc))
}

/// Checks that the platforms pattern and the platform pattern compile, then
/// reads the platforms out of `docker buildx inspect` output as
/// `platforms_from_inspect_output` does; `None` when a pattern does not
/// compile.
pub fn try_platforms_from_inspect_output(output: &str) -> (r: Option<Result<Vec<Platform>, TuggyError>>)
    ensures
        r is None <==> !(regex_is_valid(BUILDX_AVAILABLE_PLATFORMS_PATTERN@) && regex_is_valid(PLATFORM_PATTERN@)),
        r is Some ==> inspect_outcome(output@, r->0),
{
    match Pattern::new(String::from_str(BUILDX_AVAILABLE_PLATFORMS_PATTERN)) {
        Ok(_) => match Pattern::new(String::from_str(PLATFORM_PATTERN)) {
            Ok(_) => Some(platforms_from_inspect_output(output)),
            Err(_) => None,
        },
        Err(_) => None,
    }
}

} // verus!
