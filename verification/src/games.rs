//! Games that must not be recorded, and the published list of them.

use vstd::prelude::*;
use crate::sort::{KeyOrder, is_stable_sort_of, stable_sort_by_key};
use crate::text::{chars_of, lowercase_of, to_lowercase, views};

verus! {

/// Why a game is not accepted for recording.
#[derive(Debug, Clone, PartialEq, Eq)]
pub enum UnsupportedReason {
    EnoughData,
    NotAGame,
    Other(String),
}

/// A game that is not accepted, with the executable names it ships as.
#[derive(Debug, Clone, PartialEq, Eq)]
pub struct UnsupportedGame {
    pub name: String,
    pub binaries: Vec<String>,
    pub reason: UnsupportedReason,
}

/// The list of games that are not accepted for recording.
#[derive(Debug, Clone, PartialEq, Eq)]
pub struct UnsupportedGames {
    pub games: Vec<UnsupportedGame>,
}

/// A game found installed on this machine.
#[derive(Debug, Clone, PartialEq, Eq)]
pub struct InstalledGame {
    pub name: String,
    pub steam_app_id: u32,
}

/// The text shown to the user for a reason.
pub open spec fn reason_text_of(reason: UnsupportedReason) -> Seq<char> {
    match reason {
        UnsupportedReason::EnoughData => "We have collected enough data for this game."@,
        UnsupportedReason::NotAGame => "This is not a game."@,
        UnsupportedReason::Other(s) => s@,
    }
}

impl UnsupportedReason {
    /// The text shown to the user for this reason.
    pub fn reason_text(&self) -> (r: String)
        ensures
            r@ == reason_text_of(*self),
    {
        match self {
            UnsupportedReason::EnoughData => String::from_str(
                "We have collected enough data for this game.",
            ),
            UnsupportedReason::NotAGame => String::from_str("This is not a game."),
            UnsupportedReason::Other(s) => s.clone(),
        }
    }
}

/// The suffix that Epic Games Store builds add to an executable name.
pub open spec fn epic_suffix() -> Seq<char> {
    seq!['e', 'p', 'i', 'c', 'g', 'a', 'm', 'e', 's', 's', 't', 'o', 'r', 'e']
}

/// The lower-cased executable name `exe` belongs to the lower-cased binary name
/// `bin`: it is the same name, or the name followed by `_`, `-` or the Epic Games
/// Store suffix and anything after that.
pub open spec fn binary_matches(exe: Seq<char>, bin: Seq<char>) -> bool {
    ||| exe == bin
    ||| bin.push('_').is_prefix_of(exe)
    ||| bin.push('-').is_prefix_of(exe)
    ||| (bin + epic_suffix()).is_prefix_of(exe)
}

/// One of the game's binaries matches the lower-cased executable name.
pub open spec fn game_matches(exe_lower: Seq<char>, game: UnsupportedGame) -> bool {
    exists|j: int|
        0 <= j < game.binaries@.len() && #[trigger] binary_matches(
            exe_lower,
            lowercase_of(game.binaries@[j]@),
        )
}

/// `i` is the first game in `games` that matches the lower-cased executable name.
pub open spec fn is_first_match(games: Seq<UnsupportedGame>, exe_lower: Seq<char>, i: int) -> bool {
    &&& 0 <= i < games.len()
    &&& game_matches(exe_lower, games[i])
    &&& forall|q: int| 0 <= q < i ==> !game_matches(exe_lower, #[trigger] games[q])
}

/// Every binary of a game counts, not only its first: when any one of them
/// matches the lower-cased executable name, the game matches, and some game no
/// later in the list is the first match, so `get` finds a game.
pub proof fn lemma_any_binary_finds_a_game(
    games: Seq<UnsupportedGame>,
    exe_lower: Seq<char>,
    i: int,
    j: int,
)
    requires
        0 <= i < games.len(),
        0 <= j < games[i].binaries@.len(),
        binary_matches(exe_lower, lowercase_of(games[i].binaries@[j]@)),
    ensures
        game_matches(exe_lower, games[i]),
        exists|k: int| 0 <= k <= i && is_first_match(games, exe_lower, k),
{
    assert(game_matches(exe_lower, games[i]));
    lemma_first_match_exists(games, exe_lower, i);
}

proof fn lemma_first_match_exists(games: Seq<UnsupportedGame>, exe_lower: Seq<char>, i: int)
    requires
        0 <= i < games.len(),
        game_matches(exe_lower, games[i]),
    ensures
        exists|k: int| 0 <= k <= i && is_first_match(games, exe_lower, k),
    decreases i,
{
    if exists|q: int| 0 <= q < i && game_matches(exe_lower, #[trigger] games[q]) {
        let q = choose|q: int| 0 <= q < i && game_matches(exe_lower, #[trigger] games[q]);
        lemma_first_match_exists(games, exe_lower, q);
    } else {
        assert(is_first_match(games, exe_lower, i));
    }
}

/// Whether `pre` is a prefix of `s`.
pub fn has_prefix(s: &Vec<char>, pre: &Vec<char>) -> (r: bool)
    ensures
        r == pre@.is_prefix_of(s@),
{
    if pre.len() > s.len() {
        return false;
    }
    let mut i: usize = 0;
    while i < pre.len()
        invariant
            pre@.len() <= s@.len(),
            i <= pre@.len(),
            forall|k: int| 0 <= k < i ==> pre@[k] == s@[k],
        decreases pre@.len() - i,
    {
        if pre[i] != s[i] {
            return false;
        }
        i += 1;
    }
    assert(pre@ =~= s@.subrange(0, pre@.len() as int));
    true
}

/// Whether two character vectors hold the same characters.
pub fn chars_equal(a: &Vec<char>, b: &Vec<char>) -> (r: bool)
    ensures
        r == (a@ == b@),
{
    if a.len() != b.len() {
        return false;
    }
    let r = has_prefix(a, b);
    proof {
        if r {
            assert(a@ =~= b@);
        }
    }
    r
}

fn with_char(v: &Vec<char>, c: char) -> (r: Vec<char>)
    ensures
        r@ == v@.push(c),
{
    let mut r = v.clone();
    r.push(c);
    r
}

fn epic_suffix_exec() -> (r: Vec<char>)
    ensures
        r@ == epic_suffix(),
{
    let r = vec!['e', 'p', 'i', 'c', 'g', 'a', 'm', 'e', 's', 's', 't', 'o', 'r', 'e'];
    assert(r@ =~= epic_suffix());
    r
}

fn binary_matches_exec(exe: &Vec<char>, bin: &Vec<char>) -> (r: bool)
    ensures
        r == binary_matches(exe@, bin@),
{
    if chars_equal(exe, bin) {
        return true;
    }
    if has_prefix(exe, &with_char(bin, '_')) {
        return true;
    }
    if has_prefix(exe, &with_char(bin, '-')) {
        return true;
    }
    let mut epic = bin.clone();
    let mut suffix = epic_suffix_exec();
    epic.append(&mut suffix);
    has_prefix(exe, &epic)
}

impl UnsupportedGames {
    /// The first game one of whose binaries matches the executable name (given
    /// without its extension), ignoring case.
    pub fn get(&self, game_exe_without_ext: &str) -> (r: Option<&UnsupportedGame>)
        ensures
            match r {
                Some(g) => exists|i: int|
                    is_first_match(self.games@, lowercase_of(game_exe_without_ext@), i) && *g
                        == self.games@[i],
                None => forall|i: int|
                    0 <= i < self.games@.len() ==> !game_matches(
                        lowercase_of(game_exe_without_ext@),
                        #[trigger] self.games@[i],
                    ),
            },
    {
        let lower = to_lowercase(game_exe_without_ext);
        let exe = chars_of(lower.as_str());
        let ghost el = lowercase_of(game_exe_without_ext@);
        let mut i: usize = 0;
        while i < self.games.len()
            invariant
                exe@ == el,
                el == lowercase_of(game_exe_without_ext@),
                i <= self.games@.len(),
                forall|q: int| 0 <= q < i ==> !game_matches(el, #[trigger] self.games@[q]),
            decreases self.games@.len() - i,
        {
            let game = &self.games[i];
            let mut j: usize = 0;
            while j < game.binaries.len()
                invariant
                    exe@ == el,
                    el == lowercase_of(game_exe_without_ext@),
                    i < self.games@.len(),
                    *game == self.games@[i as int],
                    forall|q: int| 0 <= q < i ==> !game_matches(el, #[trigger] self.games@[q]),
                    j <= game.binaries@.len(),
                    forall|q: int|
                        0 <= q < j ==> !#[trigger] binary_matches(
                            el,
                            lowercase_of(game.binaries@[q]@),
                        ),
                decreases game.binaries@.len() - j,
            {
                let b_lower = to_lowercase(game.binaries[j].as_str());
                let bin = chars_of(b_lower.as_str());
                if binary_matches_exec(&exe, &bin) {
                    assert(bin@ == lowercase_of(game.binaries@[j as int]@));
                    assert(binary_matches(el, lowercase_of(game.binaries@[j as int]@)));
                    assert(game_matches(el, *game));
                    assert(is_first_match(
                        self.games@,
                        lowercase_of(game_exe_without_ext@),
                        i as int,
                    ) && *game == self.games@[i as int]);
                    return Some(game);
                }
                j += 1;
            }
            i += 1;
        }
        None
    }
}

/// The heading under which the published list shows a reason; games that are
/// not games are not shown.
pub open spec fn reason_heading_of(reason: UnsupportedReason) -> Option<Seq<char>> {
    match reason {
        UnsupportedReason::EnoughData => Some("Sufficient Data Collected"@),
        UnsupportedReason::NotAGame => None,
        UnsupportedReason::Other(_) => Some("Other"@),
    }
}

/// The heading under which the published list shows a reason.
pub fn reason_heading(reason: &UnsupportedReason) -> (r: Option<&'static str>)
    ensures
        match r {
            Some(h) => reason_heading_of(*reason) == Some(h@),
            None => reason_heading_of(*reason) is None,
        },
{
    match reason {
        UnsupportedReason::EnoughData => Some("Sufficient Data Collected"),
        UnsupportedReason::NotAGame => None,
        UnsupportedReason::Other(_) => Some("Other"),
    }
}


/// Lexicographic order of character sequences (by code point), which is the
/// order `String`'s `Ord` gives.
pub open spec fn chars_le(a: Seq<char>, b: Seq<char>) -> bool
    decreases a.len(),
{
    if a.len() == 0 {
        true
    } else if b.len() == 0 {
        false
    } else if a[0] != b[0] {
        a[0] < b[0]
    } else {
        chars_le(a.drop_first(), b.drop_first())
    }
}

proof fn lemma_chars_le_total(a: Seq<char>, b: Seq<char>)
    ensures
        chars_le(a, b) || chars_le(b, a),
    decreases a.len(),
{
    if a.len() > 0 && b.len() > 0 && a[0] == b[0] {
        lemma_chars_le_total(a.drop_first(), b.drop_first());
    }
}

proof fn lemma_chars_le_trans(a: Seq<char>, b: Seq<char>, c: Seq<char>)
    requires
        chars_le(a, b),
        chars_le(b, c),
    ensures
        chars_le(a, c),
    decreases a.len(),
{
    if a.len() > 0 && b.len() > 0 && c.len() > 0 && a[0] == b[0] && b[0] == c[0] {
        lemma_chars_le_trans(a.drop_first(), b.drop_first(), c.drop_first());
    }
}

/// `a` and `b` agree before position `k`, where `a` has a smaller character
/// than `b`.
pub open spec fn first_difference_below(a: Seq<char>, b: Seq<char>, k: int) -> bool {
    &&& 0 <= k < a.len()
    &&& k < b.len()
    &&& forall|m: int| 0 <= m < k ==> a[m] == b[m]
    &&& a[k] < b[k]
}

/// The order of names is the lexicographic order of their characters, as
/// `String` compares: a name comes no later than another exactly when it is a
/// prefix of it (the empty name and the name itself among them), or when at
/// the first position where the two differ its character is the smaller.
pub proof fn lemma_chars_le_is_lexicographic(a: Seq<char>, b: Seq<char>)
    ensures
        chars_le(a, b) <==> (a.is_prefix_of(b) || exists|k: int| first_difference_below(a, b, k)),
    decreases a.len(),
{
    if a.len() == 0 {
        assert(a.is_prefix_of(b)) by {
            assert(a =~= b.subrange(0, 0));
        }
    } else if b.len() == 0 {
        assert(!a.is_prefix_of(b));
        assert(forall|k: int| !first_difference_below(a, b, k));
    } else if a[0] != b[0] {
        assert(!a.is_prefix_of(b)) by {
            if a.is_prefix_of(b) {
                assert(a[0] == b.subrange(0, a.len() as int)[0]);
            }
        }
        if a[0] < b[0] {
            assert(first_difference_below(a, b, 0));
        } else {
            assert forall|k: int| !first_difference_below(a, b, k) by {
                if first_difference_below(a, b, k) && k > 0 {
                    assert(a[0] == b[0]);
                }
            }
        }
    } else {
        let a1 = a.drop_first();
        let b1 = b.drop_first();
        lemma_chars_le_is_lexicographic(a1, b1);
        assert(a.is_prefix_of(b) <==> a1.is_prefix_of(b1)) by {
            if a.is_prefix_of(b) {
                assert(a1 =~= b1.subrange(0, a1.len() as int)) by {
                    assert forall|m: int| 0 <= m < a1.len() implies a1[m] == b1[m] by {
                        assert(a[m + 1] == b.subrange(0, a.len() as int)[m + 1]);
                    }
                }
            }
            if a1.is_prefix_of(b1) {
                assert(a =~= b.subrange(0, a.len() as int)) by {
                    assert forall|m: int| 0 <= m < a.len() implies a[m] == b[m] by {
                        if m > 0 {
                            assert(a1[m - 1] == b1.subrange(0, a1.len() as int)[m - 1]);
                        }
                    }
                }
            }
        }
        if exists|k: int| first_difference_below(a, b, k) {
            let k = choose|k: int| first_difference_below(a, b, k);
            assert(k > 0);
            assert(first_difference_below(a1, b1, k - 1)) by {
                assert forall|m: int| 0 <= m < k - 1 implies a1[m] == b1[m] by {
                    assert(a[m + 1] == b[m + 1]);
                }
            }
        }
        if exists|k: int| first_difference_below(a1, b1, k) {
            let k = choose|k: int| first_difference_below(a1, b1, k);
            assert(first_difference_below(a, b, k + 1)) by {
                assert forall|m: int| 0 <= m < k + 1 implies a[m] == b[m] by {
                    if m > 0 {
                        assert(a1[m - 1] == b1[m - 1]);
                    }
                }
            }
        }
    }
}

/// A name is never after a longer name it begins: in particular the empty name
/// comes first, and every name comes no later than itself.
pub proof fn lemma_prefix_sorts_first(a: Seq<char>, b: Seq<char>)
    requires
        a.is_prefix_of(b),
    ensures
        chars_le(a, b),
{
    lemma_chars_le_is_lexicographic(a, b);
}

/// Two names each no later than the other are the same name.
pub proof fn lemma_chars_le_antisymmetric(a: Seq<char>, b: Seq<char>)
    requires
        chars_le(a, b),
        chars_le(b, a),
    ensures
        a == b,
    decreases a.len(),
{
    if a.len() > 0 && b.len() > 0 {
        lemma_chars_le_antisymmetric(a.drop_first(), b.drop_first());
        assert(a =~= seq![a[0]] + a.drop_first());
        assert(b =~= seq![b[0]] + b.drop_first());
    } else {
        assert(a =~= b);
    }
}

/// A sort key that orders names by their lower-case form.
pub struct NameKey {
    pub lower: Vec<char>,
}

impl KeyOrder for NameKey {
    open spec fn key_le(self, other: Self) -> bool {
        chars_le(self.lower@, other.lower@)
    }

    proof fn lemma_key_le_total(a: Self, b: Self) {
        lemma_chars_le_total(a.lower@, b.lower@);
    }

    proof fn lemma_key_le_trans(a: Self, b: Self, c: Self) {
        lemma_chars_le_trans(a.lower@, b.lower@, c.lower@);
    }

    fn le(&self, other: &Self) -> (r: bool) {
        let a = &self.lower;
        let b = &other.lower;
        let mut i: usize = 0;
        assert(a@.subrange(0, a@.len() as int) =~= a@);
        assert(b@.subrange(0, b@.len() as int) =~= b@);
        while i < a.len() && i < b.len()
            invariant
                a@ == self.lower@,
                b@ == other.lower@,
                i <= a@.len(),
                i <= b@.len(),
                forall|k: int| 0 <= k < i ==> a@[k] == b@[k],
                chars_le(a@, b@) == chars_le(a@.subrange(i as int, a@.len() as int), b@.subrange(i as int, b@.len() as int)),
            decreases a@.len() - i,
        {
            if a[i] != b[i] {
                proof {
                    let sa = a@.subrange(i as int, a@.len() as int);
                    let sb = b@.subrange(i as int, b@.len() as int);
                    assert(sa[0] == a@[i as int] && sb[0] == b@[i as int]);
                    assert(sa.len() > 0 && sb.len() > 0 && sa[0] != sb[0]);
                    assert(chars_le(sa, sb) == (sa[0] < sb[0]));
                    assert(chars_le(a@, b@) == (a@[i as int] < b@[i as int]));
                }
                let r = a[i] < b[i];
                assert(r == (a@[i as int] < b@[i as int]));
                return r;
            }
            proof {
                let sa = a@.subrange(i as int, a@.len() as int);
                let sb = b@.subrange(i as int, b@.len() as int);
                assert(sa.drop_first() =~= a@.subrange(i + 1, a@.len() as int));
                assert(sb.drop_first() =~= b@.subrange(i + 1, b@.len() as int));
            }
            i += 1;
        }
        proof {
            let sa = a@.subrange(i as int, a@.len() as int);
            let sb = b@.subrange(i as int, b@.len() as int);
            if i == a@.len() {
                assert(sa.len() == 0);
            } else {
                assert(sb.len() == 0 && sa.len() > 0);
            }
        }
        i == a.len()
    }
}

/// Keeps the first of every run of equal consecutive items (`Vec::dedup`).
pub open spec fn dedup_of<A>(s: Seq<A>) -> Seq<A>
    decreases s.len(),
{
    if s.len() <= 1 {
        s
    } else {
        let d = dedup_of(s.drop_last());
        if s.last() == s[s.len() - 2] {
            d
        } else {
            d.push(s.last())
        }
    }
}

/// The views of a sequence of string pairs.
pub open spec fn pair_views(v: Seq<(String, String)>) -> Seq<(Seq<char>, Seq<char>)> {
    v.map_values(|p: (String, String)| (p.0@, p.1@))
}

/// The names of the games whose reason is `EnoughData`, in list order.
pub open spec fn enough_data_names(games: Seq<UnsupportedGame>) -> Seq<Seq<char>>
    decreases games.len(),
{
    if games.len() == 0 {
        Seq::empty()
    } else {
        let rest = enough_data_names(games.drop_last());
        match games.last().reason {
            UnsupportedReason::EnoughData => rest.push(games.last().name@),
            _ => rest,
        }
    }
}

/// The names and reasons of the games whose reason is `Other`, in list order.
pub open spec fn other_reason_games(games: Seq<UnsupportedGame>) -> Seq<(Seq<char>, Seq<char>)>
    decreases games.len(),
{
    if games.len() == 0 {
        Seq::empty()
    } else {
        let rest = other_reason_games(games.drop_last());
        match games.last().reason {
            UnsupportedReason::Other(r) => rest.push((games.last().name@, r@)),
            _ => rest,
        }
    }
}

/// The games of the published list, as the list shows them: the names of games
/// with enough data, and the names and reasons of games with another reason,
/// each sorted by lower-case name (stably) with repeated entries dropped.
pub struct GamesListing {
    pub enough_data: Vec<String>,
    pub other: Vec<(String, String)>,
}

fn string_name(s: &String) -> (r: String)
    ensures
        r@ == s@,
{
    s.clone()
}

/// Whether two strings hold the same characters.
pub fn same_text(a: &str, b: &str) -> (r: bool)
    ensures
        r == (a@ == b@),
{
    chars_equal(&chars_of(a), &chars_of(b))
}

fn dedup_strings(v: &Vec<String>) -> (r: Vec<String>)
    ensures
        views(r@) == dedup_of(views(v@)),
{
    let mut out: Vec<String> = Vec::new();
    let mut i: usize = 0;
    while i < v.len()
        invariant
            i <= v@.len(),
            views(out@) == dedup_of(views(v@.subrange(0, i as int))),
        decreases v@.len() - i,
    {
        let ghost pre = views(v@.subrange(0, i as int));
        let ghost post = views(v@.subrange(0, i + 1));
        assert(post.drop_last() =~= pre);
        assert(post.last() == v@[i as int]@);
        if i > 0 {
            assert(post[post.len() - 2] == v@[i - 1]@);
        }
        if i == 0 || !same_text(v[i].as_str(), v[i - 1].as_str()) {
            let ghost old_out = out@;
            out.push(string_name(&v[i]));
            assert(views(out@) =~= views(old_out).push(v@[i as int]@));
            if i == 0 {
                assert(post =~= seq![v@[0]@]);
            }
        }
        i += 1;
    }
    assert(v@.subrange(0, v@.len() as int) =~= v@);
    out
}

fn dedup_pairs(v: &Vec<(String, String)>) -> (r: Vec<(String, String)>)
    ensures
        pair_views(r@) == dedup_of(pair_views(v@)),
{
    let mut out: Vec<(String, String)> = Vec::new();
    let mut i: usize = 0;
    while i < v.len()
        invariant
            i <= v@.len(),
            pair_views(out@) == dedup_of(pair_views(v@.subrange(0, i as int))),
        decreases v@.len() - i,
    {
        let ghost pre = pair_views(v@.subrange(0, i as int));
        let ghost post = pair_views(v@.subrange(0, i + 1));
        assert(post.drop_last() =~= pre);
        assert(post.last() == (v@[i as int].0@, v@[i as int].1@));
        if i > 0 {
            assert(post[post.len() - 2] == (v@[i - 1].0@, v@[i - 1].1@));
        }
        if i == 0 || !(same_text(v[i].0.as_str(), v[i - 1].0.as_str()) && same_text(
            v[i].1.as_str(),
            v[i - 1].1.as_str(),
        )) {
            let ghost old_out = out@;
            out.push((string_name(&v[i].0), string_name(&v[i].1)));
            assert(pair_views(out@) =~= pair_views(old_out).push(
                (v@[i as int].0@, v@[i as int].1@),
            ));
            if i == 0 {
                assert(post =~= seq![(v@[0].0@, v@[0].1@)]);
            }
        }
        i += 1;
    }
    assert(v@.subrange(0, v@.len() as int) =~= v@);
    out
}


/// `keyed` pairs each name of `names`, in order, with its lower-case form as key.
pub open spec fn keyed_names(keyed: Seq<(NameKey, String)>, names: Seq<Seq<char>>) -> bool {
    &&& keyed.len() == names.len()
    &&& forall|i: int|
        0 <= i < keyed.len() ==> (#[trigger] keyed[i]).1@ == names[i] && keyed[i].0.lower@
            == lowercase_of(names[i])
}

/// `keyed` pairs each (name, reason) of `pairs`, in order, with the lower-case
/// name as key.
pub open spec fn keyed_pairs(
    keyed: Seq<(NameKey, (String, String))>,
    pairs: Seq<(Seq<char>, Seq<char>)>,
) -> bool {
    &&& keyed.len() == pairs.len()
    &&& forall|i: int|
        0 <= i < keyed.len() ==> ((#[trigger] keyed[i]).1.0@, keyed[i].1.1@) == pairs[i]
            && keyed[i].0.lower@ == lowercase_of(pairs[i].0)
}

pub open spec fn sorted_names(s: Seq<(NameKey, String)>) -> Seq<Seq<char>> {
    s.map_values(|p: (NameKey, String)| p.1@)
}

pub open spec fn sorted_pairs(s: Seq<(NameKey, (String, String))>) -> Seq<(Seq<char>, Seq<char>)> {
    s.map_values(|p: (NameKey, (String, String))| (p.1.0@, p.1.1@))
}

fn name_key(name: &String) -> (r: NameKey)
    ensures
        r.lower@ == lowercase_of(name@),
{
    let lower = to_lowercase(name.as_str());
    NameKey { lower: chars_of(lower.as_str()) }
}

impl UnsupportedGames {
    /// The entries of the published list of games: games with enough data by
    /// name, and games with another reason by name and reason, each sorted
    /// stably by lower-case name, with repeated entries dropped. Games that are
    /// not games are not listed.
    pub fn listing(&self) -> (r: GamesListing)
        ensures
            exists|ke: Seq<(NameKey, String)>, se: Seq<(NameKey, String)>|
                keyed_names(ke, enough_data_names(self.games@)) && is_stable_sort_of(se, ke)
                    && views(r.enough_data@) == dedup_of(sorted_names(se)),
            exists|ko: Seq<(NameKey, (String, String))>, so: Seq<(NameKey, (String, String))>|
                keyed_pairs(ko, other_reason_games(self.games@)) && is_stable_sort_of(so, ko)
                    && pair_views(r.other@) == dedup_of(sorted_pairs(so)),
    {
        let mut ke: Vec<(NameKey, String)> = Vec::new();
        let mut ko: Vec<(NameKey, (String, String))> = Vec::new();
        let mut i: usize = 0;
        while i < self.games.len()
            invariant
                i <= self.games@.len(),
                keyed_names(ke@, enough_data_names(self.games@.subrange(0, i as int))),
                keyed_pairs(ko@, other_reason_games(self.games@.subrange(0, i as int))),
            decreases self.games@.len() - i,
        {
            let game = &self.games[i];
            let ghost pre = self.games@.subrange(0, i as int);
            let ghost post = self.games@.subrange(0, i + 1);
            assert(post.drop_last() =~= pre);
            assert(post.last() == *game);
            match &game.reason {
                UnsupportedReason::EnoughData => {
                    ke.push((name_key(&game.name), game.name.clone()));
                },
                UnsupportedReason::NotAGame => {},
                UnsupportedReason::Other(reason) => {
                    ko.push((name_key(&game.name), (game.name.clone(), reason.clone())));
                },
            }
            i += 1;
        }
        assert(self.games@.subrange(0, self.games@.len() as int) =~= self.games@);
        let ghost ke_v = ke@;
        let ghost ko_v = ko@;
        let se = stable_sort_by_key(ke);
        let so = stable_sort_by_key(ko);
        let mut names: Vec<String> = Vec::new();
        let mut k: usize = 0;
        while k < se.len()
            invariant
                k <= se@.len(),
                views(names@) == sorted_names(se@).subrange(0, k as int),
            decreases se@.len() - k,
        {
            let ghost old_names = names@;
            names.push(se[k].1.clone());
            assert(views(names@) =~= views(old_names).push(se@[k as int].1@));
            assert(sorted_names(se@).subrange(0, k + 1) =~= sorted_names(se@).subrange(
                0,
                k as int,
            ).push(se@[k as int].1@));
            k += 1;
        }
        assert(sorted_names(se@).subrange(0, se@.len() as int) =~= sorted_names(se@));
        let mut pairs: Vec<(String, String)> = Vec::new();
        let mut k: usize = 0;
        while k < so.len()
            invariant
                k <= so@.len(),
                pair_views(pairs@) == sorted_pairs(so@).subrange(0, k as int),
            decreases so@.len() - k,
        {
            let ghost old_pairs = pairs@;
            pairs.push((so[k].1.0.clone(), so[k].1.1.clone()));
            assert(pair_views(pairs@) =~= pair_views(old_pairs).push(
                (so@[k as int].1.0@, so@[k as int].1.1@),
            ));
            assert(sorted_pairs(so@).subrange(0, k + 1) =~= sorted_pairs(so@).subrange(
                0,
                k as int,
            ).push((so@[k as int].1.0@, so@[k as int].1.1@)));
            k += 1;
        }
        assert(sorted_pairs(so@).subrange(0, so@.len() as int) =~= sorted_pairs(so@));
        let r = GamesListing { enough_data: dedup_strings(&names), other: dedup_pairs(&pairs) };
        assert(keyed_names(ke_v, enough_data_names(self.games@)) && is_stable_sort_of(se@, ke_v)
            && views(r.enough_data@) == dedup_of(sorted_names(se@)));
        assert(keyed_pairs(ko_v, other_reason_games(self.games@)) && is_stable_sort_of(so@, ko_v)
            && pair_views(r.other@) == dedup_of(sorted_pairs(so@)));
        r
    }
}


/// One bullet line per name.
pub open spec fn bullet_lines(names: Seq<Seq<char>>) -> Seq<char>
    decreases names.len(),
{
    if names.len() == 0 {
        Seq::empty()
    } else {
        bullet_lines(names.drop_last()) + "- "@ + names.last() + "\n"@
    }
}

/// One bullet line per game, with its reason in parentheses.
pub open spec fn reason_lines(pairs: Seq<(Seq<char>, Seq<char>)>) -> Seq<char>
    decreases pairs.len(),
{
    if pairs.len() == 0 {
        Seq::empty()
    } else {
        reason_lines(pairs.drop_last()) + "- "@ + pairs.last().0 + " ("@ + pairs.last().1 + ")\n"@
    }
}

/// The section of games with enough data.
pub open spec fn enough_data_section(names: Seq<Seq<char>>) -> Seq<char> {
    "### "@ + "Sufficient Data Collected"@ + "\n\n"@ + bullet_lines(names)
}

/// The section of games with another reason.
pub open spec fn other_section(pairs: Seq<(Seq<char>, Seq<char>)>) -> Seq<char> {
    "### Other\n\n"@ + reason_lines(pairs)
}

/// The published list: the sections that have entries, joined by a blank line.
pub open spec fn games_list_text(
    names: Seq<Seq<char>>,
    pairs: Seq<(Seq<char>, Seq<char>)>,
) -> Seq<char> {
    if names.len() > 0 && pairs.len() > 0 {
        enough_data_section(names) + "\n"@ + other_section(pairs)
    } else if names.len() > 0 {
        enough_data_section(names)
    } else if pairs.len() > 0 {
        other_section(pairs)
    } else {
        Seq::empty()
    }
}

fn append_string(s: &mut String, t: &String)
    ensures
        final(s)@ == old(s)@ + t@,
{
    s.append(t.as_str());
}

impl GamesListing {
    /// The markdown text of the list.
    pub fn render(&self) -> (r: String)
        ensures
            r@ == games_list_text(views(self.enough_data@), pair_views(self.other@)),
    {
        let ghost names = views(self.enough_data@);
        let ghost pairs = pair_views(self.other@);
        let mut out = String::new();
        if self.enough_data.len() > 0 {
            out.append("### ");
            out.append("Sufficient Data Collected");
            out.append("\n\n");
            let ghost head = out@;
            let mut i: usize = 0;
            while i < self.enough_data.len()
                invariant
                    names == views(self.enough_data@),
                    i <= self.enough_data@.len(),
                    out@ == head + bullet_lines(names.subrange(0, i as int)),
                decreases self.enough_data@.len() - i,
            {
                assert(names.subrange(0, i + 1).drop_last() =~= names.subrange(0, i as int));
                assert(names.subrange(0, i + 1).last() == self.enough_data@[i as int]@);
                out.append("- ");
                append_string(&mut out, &self.enough_data[i]);
                out.append("\n");
                i += 1;
                assert(out@ =~= head + bullet_lines(names.subrange(0, i as int)));
            }
            assert(names.subrange(0, names.len() as int) =~= names);
            assert(out@ =~= enough_data_section(names));
        }
        if self.other.len() > 0 {
            if self.enough_data.len() > 0 {
                out.append("\n");
            }
            let ghost before = out@;
            out.append("### Other\n\n");
            let ghost head = out@;
            let mut i: usize = 0;
            while i < self.other.len()
                invariant
                    pairs == pair_views(self.other@),
                    i <= self.other@.len(),
                    out@ == head + reason_lines(pairs.subrange(0, i as int)),
                decreases self.other@.len() - i,
            {
                assert(pairs.subrange(0, i + 1).drop_last() =~= pairs.subrange(0, i as int));
                assert(pairs.subrange(0, i + 1).last() == (
                    self.other@[i as int].0@,
                    self.other@[i as int].1@,
                ));
                out.append("- ");
                append_string(&mut out, &self.other[i].0);
                out.append(" (");
                append_string(&mut out, &self.other[i].1);
                out.append(")\n");
                i += 1;
                assert(out@ =~= head + reason_lines(pairs.subrange(0, i as int)));
            }
            assert(pairs.subrange(0, pairs.len() as int) =~= pairs);
            assert(out@ =~= before + other_section(pairs));
        }
        assert(out@ =~= games_list_text(names, pairs));
        out
    }

    /// How many games the list shows.
    pub fn visible_count(&self) -> (r: usize)
        requires
            self.enough_data@.len() + self.other@.len() <= usize::MAX,
        ensures
            r == self.enough_data@.len() + self.other@.len(),
    {
        self.enough_data.len() + self.other.len()
    }
}

/// `pat` occurs in `s` starting at index `i`.
pub open spec fn occurs_at(s: Seq<char>, pat: Seq<char>, i: int) -> bool {
    &&& 0 <= i
    &&& i + pat.len() <= s.len()
    &&& s.subrange(i, i + pat.len()) == pat
}

/// `i` is the first index at or after `from` at which `pat` occurs in `s`.
pub open spec fn is_first_occurrence_from(s: Seq<char>, pat: Seq<char>, from: int, i: int) -> bool {
    &&& from <= i
    &&& occurs_at(s, pat, i)
    &&& forall|j: int| from <= j < i ==> !#[trigger] occurs_at(s, pat, j)
}

/// The first index at or after `from` at which `pat` occurs in `s` (`str::find`).
pub fn find_from(s: &Vec<char>, pat: &Vec<char>, from: usize) -> (r: Option<usize>)
    ensures
        match r {
            Some(i) => is_first_occurrence_from(s@, pat@, from as int, i as int),
            None => forall|j: int| from <= j ==> !#[trigger] occurs_at(s@, pat@, j),
        },
{
    if pat.len() > s.len() {
        return None;
    }
    let last = s.len() - pat.len();
    if from > last {
        assert forall|j: int| from <= j implies !#[trigger] occurs_at(s@, pat@, j) by {}
        return None;
    }
    let mut i: usize = from;
    loop
        invariant_except_break
            last == s@.len() - pat@.len(),
            pat@.len() <= s@.len(),
            from <= i <= last,
            forall|j: int| from <= j < i ==> !#[trigger] occurs_at(s@, pat@, j),
        ensures
            forall|j: int| from <= j <= last ==> !#[trigger] occurs_at(s@, pat@, j),
        decreases last - i,
    {
        let mut k: usize = 0;
        let mut matched = true;
        while k < pat.len()
            invariant
                i <= last == s@.len() - pat@.len(),
                pat@.len() <= s@.len(),
                k <= pat@.len(),
                matched ==> forall|q: int| 0 <= q < k ==> s@[i + q] == pat@[q],
                !matched ==> !occurs_at(s@, pat@, i as int),
            decreases pat@.len() - k,
        {
            assert(i + k < s.len());
            if s[i + k] != pat[k] {
                matched = false;
                assert(s@.subrange(i as int, i + pat@.len())[k as int] == s@[i + k]);
            }
            k += 1;
        }
        if matched {
            assert(s@.subrange(i as int, i + pat@.len()) =~= pat@);
            return Some(i);
        }
        if i == last {
            break;
        }
        i += 1;
    }
    assert forall|j: int| from <= j implies !#[trigger] occurs_at(s@, pat@, j) by {
        if j > last {
        }
    }
    None
}

/// The document with everything after the end of its list marker replaced by a
/// blank line and the list, when the document has a marker that is closed.
pub open spec fn is_games_md_update(md: Seq<char>, games_list: Seq<char>, r: Option<Seq<char>>) -> bool {
    let open = "<!-- MARKER:"@;
    let close = "-->"@;
    match r {
        Some(t) => exists|a: int, b: int|
            is_first_occurrence_from(md, open, 0, a) && is_first_occurrence_from(md, close, a, b)
                && t == md.subrange(0, b + close.len()) + "\n\n"@ + games_list,
        None => (forall|j: int| 0 <= j ==> !#[trigger] occurs_at(md, open, j)) || exists|a: int|
            is_first_occurrence_from(md, open, 0, a) && forall|j: int|
                a <= j ==> !#[trigger] occurs_at(md, close, j),
    }
}

/// Replaces what follows the list marker of the games page with the list; `None`
/// when the page has no marker, or the marker is not closed.
pub fn splice_games_list(md_content: &str, games_list: &str) -> (r: Option<String>)
    ensures
        is_games_md_update(
            md_content@,
            games_list@,
            match r {
                Some(t) => Some(t@),
                None => None,
            },
        ),
{
    let md = chars_of(md_content);
    let open = chars_of("<!-- MARKER:");
    let close = chars_of("-->");
    let a = match find_from(&md, &open, 0) {
        Some(a) => a,
        None => return None,
    };
    let b = match find_from(&md, &close, a) {
        Some(b) => b,
        None => return None,
    };
    assert(occurs_at(md@, close@, b as int));
    assert(b + close@.len() <= md.len());
    let end = b + close.len();
    let mut head: Vec<char> = Vec::new();
    let mut i: usize = 0;
    while i < end
        invariant
            end == b + close@.len() <= md@.len(),
            i <= end,
            head@ == md@.subrange(0, i as int),
        decreases end - i,
    {
        head.push(md[i]);
        i += 1;
        assert(head@ =~= md@.subrange(0, i as int));
    }
    let mut out = crate::text::string_from_chars(head.as_slice());
    out.append("\n\n");
    out.append(games_list);
    Some(out)
}

} // verus!
