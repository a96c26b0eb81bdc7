use crate::decimal::{decimal_value, is_decimal, parse_u32};
use vstd::prelude::*;

verus! {

/// The text an optional string holds.
pub open spec fn opt_view(o: Option<String>) -> Option<Seq<char>> {
    match o {
        Some(s) => Some(s@),
        None => None,
    }
}

/// The texts of a sequence of optional strings.
pub open spec fn opts_view(v: Seq<Option<String>>) -> Seq<Option<Seq<char>>> {
    v.map_values(|o: Option<String>| opt_view(o))
}

/// The text of group 1 in the first match of `pattern` in `text`; `None`
/// where the pattern does not compile, nothing matches or the group is unset.
pub uninterp spec fn first_capture_of(text: Seq<char>, pattern: Seq<char>) -> Option<Seq<char>>;

/// Group 1 of each successive non-overlapping match of `pattern` in `text`;
/// `None` where the pattern does not compile.
pub uninterp spec fn all_captures_of(text: Seq<char>, pattern: Seq<char>) -> Option<Seq<Option<Seq<char>>>>;

/// Relies on regex::Regex::new and Regex::captures: group 1 of the leftmost
/// match, which depends on the two texts alone.
#[verifier::external_body]
fn first_capture(text: &str, pattern: &str) -> (r: Option<String>)
    ensures
        opt_view(r) == first_capture_of(text@, pattern@),
{
    let re = regex::Regex::new(pattern).ok()?;
    let caps = re.captures(text)?;
    caps.get(1).map(|m| m.as_str().to_string())
}

/// Relies on regex::Regex::new and Regex::captures_iter: group 1 of every
/// match, in order, which depends on the two texts alone.
#[verifier::external_body]
fn all_captures(text: &str, pattern: &str) -> (r: Option<Vec<Option<String>>>)
    ensures
        match r {
            Some(v) => all_captures_of(text@, pattern@) == Some(opts_view(v@)),
            None => all_captures_of(text@, pattern@) == None::<Seq<Option<Seq<char>>>>,
        },
{
    let re = regex::Regex::new(pattern).ok()?;
    Some(re.captures_iter(text).map(|c| c.get(1).map(|m| m.as_str().to_string())).collect())
}

/// The label giving the number of games where it is the player's turn.
pub open spec fn turn_count_pattern() -> Seq<char> {
    "Your Turn Games\\s*\\((\\d+)\\)"@
}

/// The label giving the number of games waiting to start.
pub open spec fn start_count_pattern() -> Seq<char> {
    "Your Games Waiting to Start \\s*\\((\\d+)\\)"@
}

/// A link to one game page, the game id in group 1.
pub open spec fn game_link_pattern() -> Seq<char> {
    "href\\s*=\\s*[\"']?game\\.php\\?games_id=(\\d+)"@
}

/// A captured number, where it is one that fits in `u32`.
pub open spec fn captured_number(c: Option<Seq<char>>) -> Option<u32> {
    match c {
        Some(t) => if is_decimal(t) && decimal_value(t) <= u32::MAX as nat {
            Some(decimal_value(t) as u32)
        } else {
            None
        },
        None => None,
    }
}

/// A captured count; an absent or unreadable one counts as zero.
pub open spec fn captured_count(c: Option<Seq<char>>) -> nat {
    match captured_number(c) {
        Some(n) => n as nat,
        None => 0,
    }
}

/// The sum of two counts, held at `u32::MAX`.
pub open spec fn total_count(a: nat, b: nat) -> u32 {
    if a + b > u32::MAX as nat { u32::MAX } else { (a + b) as u32 }
}

/// The ids that the captured links give.
pub open spec fn link_ids(caps: Seq<Option<Seq<char>>>) -> Set<u32> {
    Set::new(|id: u32| exists|i: int| 0 <= i < caps.len() && captured_number(#[trigger] caps[i]) == Some(id))
}

pub open spec fn found_link_ids(caps: Option<Seq<Option<Seq<char>>>>) -> Set<u32> {
    match caps {
        Some(c) => link_ids(c),
        None => Set::empty(),
    }
}

/// Strictly ascending: sorted and without repetition.
pub open spec fn strictly_ascending(s: Seq<u32>) -> bool {
    forall|i: int, j: int| 0 <= i < j < s.len() ==> s[i] < s[j]
}

/// Two strictly ascending sequences that hold the same values are equal.
pub proof fn lemma_ascending_by_contents(a: Seq<u32>, b: Seq<u32>)
    requires
        strictly_ascending(a),
        strictly_ascending(b),
        forall|x: u32| a.contains(x) <==> b.contains(x),
    ensures
        a == b,
    decreases a.len() + b.len(),
{
    if a.len() == 0 || b.len() == 0 {
        if a.len() > 0 {
            assert(a.contains(a[0]));
        }
        if b.len() > 0 {
            assert(b.contains(b[0]));
        }
        assert(a =~= b);
    } else {
        assert(a.contains(a[0]));
        assert(b.contains(b[0]));
        let i = choose|i: int| 0 <= i < b.len() && b[i] == a[0];
        let j = choose|j: int| 0 <= j < a.len() && a[j] == b[0];
        if i > 0 {
            assert(b[0] < b[i]);
        }
        if j > 0 {
            assert(a[0] < a[j]);
        }
        assert(a[0] == b[0]);
        let ta = a.subrange(1, a.len() as int);
        let tb = b.subrange(1, b.len() as int);
        assert forall|x: u32| ta.contains(x) <==> tb.contains(x) by {
            if ta.contains(x) {
                let k = choose|k: int| 0 <= k < ta.len() && ta[k] == x;
                assert(a[k + 1] == x);
                assert(a.contains(x));
                let m = choose|m: int| 0 <= m < b.len() && b[m] == x;
                assert(a[0] < a[k + 1]);
                assert(m > 0);
                assert(tb[m - 1] == x);
            }
            if tb.contains(x) {
                let k = choose|k: int| 0 <= k < tb.len() && tb[k] == x;
                assert(b[k + 1] == x);
                assert(b.contains(x));
                let m = choose|m: int| 0 <= m < a.len() && a[m] == x;
                assert(b[0] < b[k + 1]);
                assert(m > 0);
                assert(ta[m - 1] == x);
            }
        }
        lemma_ascending_by_contents(ta, tb);
        assert(a =~= seq![a[0]] + ta);
        assert(b =~= seq![b[0]] + tb);
    }
}

/// `c` with `x` put in its place; `c` itself where it already holds `x`.
pub open spec fn insert_ascending(c: Seq<u32>, x: u32) -> Seq<u32>
    decreases c.len(),
{
    if c.len() == 0 {
        seq![x]
    } else if c[0] == x {
        c
    } else if x < c[0] {
        seq![x] + c
    } else {
        seq![c[0]] + insert_ascending(c.drop_first(), x)
    }
}

/// The values of `ids` in ascending order, each once.
pub open spec fn canonical_ids(ids: Seq<u32>) -> Seq<u32>
    decreases ids.len(),
{
    if ids.len() == 0 {
        Seq::empty()
    } else {
        insert_ascending(canonical_ids(ids.drop_last()), ids.last())
    }
}

proof fn lemma_contains_cons(a: u32, t: Seq<u32>)
    ensures
        forall|y: u32| #[trigger] (seq![a] + t).contains(y) <==> (y == a || t.contains(y)),
{
    let u = seq![a] + t;
    assert forall|y: u32| #[trigger] u.contains(y) <==> (y == a || t.contains(y)) by {
        if u.contains(y) {
            let k = choose|k: int| 0 <= k < u.len() && u[k] == y;
            if k > 0 {
                assert(t[k - 1] == y);
            }
        }
        if y == a {
            assert(u[0] == y);
        }
        if t.contains(y) {
            let k = choose|k: int| 0 <= k < t.len() && t[k] == y;
            assert(u[k + 1] == y);
        }
    }
}

proof fn lemma_insert_ascending(c: Seq<u32>, x: u32)
    requires
        strictly_ascending(c),
    ensures
        strictly_ascending(insert_ascending(c, x)),
        forall|y: u32| #[trigger] insert_ascending(c, x).contains(y) <==> (c.contains(y) || y == x),
    decreases c.len(),
{
    let r = insert_ascending(c, x);
    if c.len() == 0 {
        lemma_contains_cons(x, c);
        assert(r =~= seq![x] + c);
    } else if c[0] == x {
        assert(c.contains(x));
    } else {
        let t = c.drop_first();
        assert(c =~= seq![c[0]] + t);
        lemma_contains_cons(c[0], t);
        if x < c[0] {
            lemma_contains_cons(x, c);
            assert forall|i: int, j: int| 0 <= i < j < r.len() implies r[i] < r[j] by {
                if i == 0 && j > 1 {
                    assert(c[0] < c[j - 1]);
                }
            }
        } else {
            lemma_insert_ascending(t, x);
            let rest = insert_ascending(t, x);
            lemma_contains_cons(c[0], rest);
            assert forall|i: int, j: int| 0 <= i < j < r.len() implies r[i] < r[j] by {
                if i == 0 {
                    assert(rest.contains(rest[j - 1]));
                    if t.contains(rest[j - 1]) {
                        let k = choose|k: int| 0 <= k < t.len() && t[k] == rest[j - 1];
                        assert(c[0] < c[k + 1]);
                    }
                } else {
                    assert(r[i] == rest[i - 1]);
                    assert(r[j] == rest[j - 1]);
                }
            }
        }
    }
}

/// The canonical form of `ids` is ascending and holds exactly their values.
pub proof fn lemma_canonical_ids(ids: Seq<u32>)
    ensures
        strictly_ascending(canonical_ids(ids)),
        forall|y: u32| #[trigger] canonical_ids(ids).contains(y) <==> ids.contains(y),
    decreases ids.len(),
{
    if ids.len() > 0 {
        let p = ids.drop_last();
        lemma_canonical_ids(p);
        lemma_insert_ascending(canonical_ids(p), ids.last());
        assert forall|y: u32| #[trigger] ids.contains(y) <==> (p.contains(y) || y == ids.last()) by {
            if ids.contains(y) {
                let k = choose|k: int| 0 <= k < ids.len() && ids[k] == y;
                if k < ids.len() - 1 {
                    assert(p[k] == y);
                }
            }
            if p.contains(y) {
                let k = choose|k: int| 0 <= k < p.len() && p[k] == y;
                assert(ids[k] == y);
            }
            if y == ids.last() {
                assert(ids[ids.len() - 1] == y);
            }
        }
    }
}

/// Any ascending sequence without repeats that holds exactly the values of
/// `ids` is their canonical form.
pub proof fn lemma_canonical_by_contents(ids: Seq<u32>, c: Seq<u32>)
    requires
        strictly_ascending(c),
        forall|y: u32| c.contains(y) <==> ids.contains(y),
    ensures
        c == canonical_ids(ids),
{
    lemma_canonical_ids(ids);
    lemma_ascending_by_contents(c, canonical_ids(ids));
}

/// Two id lists with the same values, in whatever order and with whatever
/// repetition, have the same canonical form.
pub proof fn lemma_canonical_ids_by_set(a: Seq<u32>, b: Seq<u32>)
    requires
        a.to_set() == b.to_set(),
    ensures
        canonical_ids(a) == canonical_ids(b),
{
    assert forall|y: u32| a.contains(y) <==> b.contains(y) by {
        assert(a.contains(y) <==> a.to_set().contains(y));
        assert(b.contains(y) <==> b.to_set().contains(y));
    }
    lemma_canonical_ids(a);
    lemma_canonical_by_contents(b, canonical_ids(a));
}

/// The values of `ids` in ascending order, each once.
pub fn sorted_ids(ids: &[u32]) -> (r: Vec<u32>)
    ensures
        r@ == canonical_ids(ids@),
{
    let mut out: Vec<u32> = Vec::new();
    let mut i: usize = 0;
    while i < ids.len()
        invariant
            0 <= i <= ids@.len(),
            strictly_ascending(out@),
            forall|y: u32| out@.contains(y) <==> ids@.take(i as int).contains(y),
        decreases ids@.len() - i,
    {
        let ghost prev = ids@.take(i as int);
        let ghost next = ids@.take(i as int + 1);
        assert forall|y: u32| next.contains(y) <==> (prev.contains(y) || y == ids@[i as int]) by {
            if next.contains(y) {
                let k = choose|k: int| 0 <= k < next.len() && next[k] == y;
                if k < i {
                    assert(prev[k] == y);
                }
            }
            if prev.contains(y) {
                let k = choose|k: int| 0 <= k < prev.len() && prev[k] == y;
                assert(next[k] == y);
            }
            if y == ids@[i as int] {
                assert(next[i as int] == y);
            }
        }
        insert_sorted(&mut out, ids[i]);
        i = i + 1;
    }
    assert(ids@.take(ids@.len() as int) =~= ids@);
    proof {
        lemma_canonical_by_contents(ids@, out@);
    }
    out
}

/// The ids that the extraction yields are fixed by the markup: any two
/// results that meet its contract for the same page are equal, whatever
/// the order or repetition of the links in it.
pub proof fn lemma_extract_deterministic(html: Seq<char>, ids1: Seq<u32>, ids2: Seq<u32>)
    requires
        strictly_ascending(ids1),
        strictly_ascending(ids2),
        ids1.to_set() == found_link_ids(all_captures_of(html, game_link_pattern())),
        ids2.to_set() == found_link_ids(all_captures_of(html, game_link_pattern())),
    ensures
        ids1 == ids2,
{
    assert forall|x: u32| ids1.contains(x) <==> ids2.contains(x) by {
        assert(ids1.contains(x) <==> ids1.to_set().contains(x));
        assert(ids2.contains(x) <==> ids2.to_set().contains(x));
    }
    lemma_ascending_by_contents(ids1, ids2);
}

fn capture_number(c: &Option<String>) -> (r: Option<u32>)
    ensures
        r == captured_number(opt_view(*c)),
{
    match c {
        Some(t) => parse_u32(t.as_str()),
        None => None,
    }
}

/// Adds `x` to an ascending vector, keeping it ascending and free of repeats.
fn insert_sorted(v: &mut Vec<u32>, x: u32)
    requires
        strictly_ascending(old(v)@),
    ensures
        strictly_ascending(final(v)@),
        forall|y: u32| final(v)@.contains(y) <==> (old(v)@.contains(y) || y == x),
{
    let mut i: usize = 0;
    let mut found = false;
    while i < v.len() && !found
        invariant
            0 <= i <= v@.len(),
            forall|k: int| 0 <= k < i ==> v@[k] < x,
            found ==> i < v@.len() && v@[i as int] >= x,
            v@ == old(v)@,
        decreases v@.len() - i + (if found { 0int } else { 1int }),
    {
        if v[i] >= x {
            found = true;
        } else {
            i = i + 1;
        }
    }
    if i < v.len() && v[i] == x {
        assert(v@[i as int] == x);
        assert(v@.contains(x));
        return;
    }
    let ghost before = v@;
    assert(before == old(v)@);
    assert(i < before.len() ==> before[i as int] > x);
    v.insert(i, x);
    assert(v@ == before.insert(i as int, x));
    assert forall|a: int, b: int| 0 <= a < b < v@.len() implies v@[a] < v@[b] by {
        if b < i {
        } else if b == i {
        } else if a < i {
            assert(v@[b] == before[b - 1]);
            if b - 1 > i {
                assert(before[i as int] < before[b - 1]);
            }
        } else if a == i {
            assert(v@[b] == before[b - 1]);
            if b - 1 > i {
                assert(before[i as int] < before[b - 1]);
            }
        } else {
            assert(v@[a] == before[a - 1]);
            assert(v@[b] == before[b - 1]);
        }
    }
    proof {
        lemma_insert_contents(before, i as int, x);
    }
}

proof fn lemma_insert_contents(s: Seq<u32>, i: int, x: u32)
    requires
        0 <= i <= s.len(),
    ensures
        forall|y: u32| #[trigger] s.insert(i, x).contains(y) <==> (s.contains(y) || y == x),
{
    let t = s.insert(i, x);
    assert forall|y: u32| #[trigger] t.contains(y) <==> (s.contains(y) || y == x) by {
        if t.contains(y) {
            let k = choose|k: int| 0 <= k < t.len() && t[k] == y;
            if k < i {
                assert(s[k] == y);
            } else if k > i {
                assert(s[k - 1] == y);
            }
        }
        if s.contains(y) {
            let k = choose|k: int| 0 <= k < s.len() && s[k] == y;
            if k < i {
                assert(t[k] == y);
            } else {
                assert(t[k + 1] == y);
            }
        }
        if y == x {
            assert(t[i] == y);
        }
    }
}

/// The count and the ids of pending games, from what the three patterns
/// captured: the two counts are added, and the ids come ascending, each once.
pub fn turn_info_from_captures(
    turn: Option<String>,
    start: Option<String>,
    links: Option<Vec<Option<String>>>,
) -> (r: (u32, Vec<u32>))
    ensures
        r.0 == total_count(captured_count(opt_view(turn)), captured_count(opt_view(start))),
        strictly_ascending(r.1@),
        r.1@.to_set() == found_link_ids(match links {
            Some(v) => Some(opts_view(v@)),
            None => None,
        }),
{
    let a: u32 = match capture_number(&turn) {
        Some(n) => n,
        None => 0,
    };
    let b: u32 = match capture_number(&start) {
        Some(n) => n,
        None => 0,
    };
    let count: u32 = if a > u32::MAX - b { u32::MAX } else { a + b };
    let mut ids: Vec<u32> = Vec::new();
    match links {
        None => {
            assert(ids@.to_set() =~= Set::empty());
        },
        Some(caps) => {
            let ghost cv = opts_view(caps@);
            let mut i: usize = 0;
            while i < caps.len()
                invariant
                    0 <= i <= caps@.len(),
                    cv == opts_view(caps@),
                    strictly_ascending(ids@),
                    forall|y: u32| ids@.contains(y) <==> link_ids(cv.take(i as int)).contains(y),
                decreases caps@.len() - i,
            {
                let n = capture_number(&caps[i]);
                let ghost prev = cv.take(i as int);
                let ghost next = cv.take(i as int + 1);
                assert(next[i as int] == cv[i as int]);
                assert forall|y: u32| link_ids(next).contains(y) <==> (link_ids(prev).contains(y)
                    || captured_number(cv[i as int]) == Some(y)) by {
                    if link_ids(next).contains(y) {
                        let k = choose|k: int| 0 <= k < next.len() && captured_number(#[trigger] next[k]) == Some(y);
                        if k < i {
                            assert(prev[k] == next[k]);
                        }
                    }
                    if link_ids(prev).contains(y) {
                        let k = choose|k: int| 0 <= k < prev.len() && captured_number(#[trigger] prev[k]) == Some(y);
                        assert(prev[k] == next[k]);
                    }
                }
                match n {
                    Some(id) => insert_sorted(&mut ids, id),
                    None => {},
                }
                i = i + 1;
            }
            assert(cv.take(caps@.len() as int) =~= cv);
            assert(ids@.to_set() =~= link_ids(cv));
        },
    }
    (count, ids)
}

/// The count and ids of pending games on the page: the two count labels
/// added, and the id of every game link, ascending and each once. Missing
/// labels count as zero and a page without links gives no ids.
pub fn extract_turn_info(html: &str) -> (r: (u32, Vec<u32>))
    ensures
        r.0 == total_count(
            captured_count(first_capture_of(html@, turn_count_pattern())),
            captured_count(first_capture_of(html@, start_count_pattern())),
        ),
        strictly_ascending(r.1@),
        r.1@.to_set() == found_link_ids(all_captures_of(html@, game_link_pattern())),
{
    let turn = first_capture(html, "Your Turn Games\\s*\\((\\d+)\\)");
    let start = first_capture(html, "Your Games Waiting to Start \\s*\\((\\d+)\\)");
    let links = all_captures(html, "href\\s*=\\s*[\"']?game\\.php\\?games_id=(\\d+)");
    turn_info_from_captures(turn, start, links)
}

} // verus!
