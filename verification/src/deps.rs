//! Decisions around the tools that install an app's dependencies: the PHP
//! version constraints and extensions a Composer project requires, what the
//! builder's PHP reports, and which Node.js distribution a target needs.
use crate::build_args::{parse_target, target_arch, target_os};
use crate::fspath::{opt_chars, opt_view};
use crate::jsonread::{
    json_object_keys, json_object_keys_at, json_string_at, json_string_at_path, json_syntax_check,
    json_syntax_error, path_view,
};
use crate::snap::{joined, write_joined};
use crate::strmap::string_views;
use crate::text::{
    chars_of, decimal, decimal_string, has_prefix, is_digit, lowercase, owned, parse_u64, parse_u64_spec,
    push_str, split_chars, split_on, split_whitespace, str_eq, str_starts_with, string_from_chars, to_lowercase,
    trim_bounds, trimmed, words, lemma_split_on_nonempty,
};
use vstd::prelude::*;
use vstd::slice::slice_subrange;

verus! {

/// The leading run of ASCII digits of `s`.
pub open spec fn digit_prefix(s: Seq<char>) -> Seq<char>
    decreases s.len(),
{
    if s.len() > 0 && is_digit(s[0]) {
        seq![s[0]] + digit_prefix(s.drop_first())
    } else {
        Seq::empty()
    }
}

/// What `str::parse::<u32>` gives for `s`.
pub open spec fn parse_u32_text(s: Seq<char>) -> Option<u32> {
    match parse_u64_spec(s) {
        Some(v) => if v <= u32::MAX {
            Some(v as u32)
        } else {
            None
        },
        None => None,
    }
}

/// The numbers that are there, in order.
pub open spec fn numbers(ps: Seq<Option<u32>>) -> Seq<u32>
    decreases ps.len(),
{
    if ps.len() == 0 {
        Seq::empty()
    } else {
        numbers(ps.drop_last()) + match ps.last() {
            Some(n) => seq![n],
            None => Seq::empty(),
        }
    }
}

/// How a piece of a dotted version is read.
#[derive(Debug, Clone, Copy)]
pub enum PieceReading {
    /// Its leading digits (an installed version such as `8.2.1-dev`).
    LeadingDigits,
    /// The piece trimmed of whitespace (a constraint's version).
    Trimmed,
    /// The piece as it is (a wildcard constraint's prefix).
    Raw,
}

/// The number a piece of a dotted version gives, if any.
pub open spec fn piece_number(p: Seq<char>, how: PieceReading) -> Option<u32> {
    match how {
        PieceReading::LeadingDigits => parse_u32_text(digit_prefix(p)),
        PieceReading::Trimmed => parse_u32_text(trimmed(p)),
        PieceReading::Raw => parse_u32_text(p),
    }
}

/// The numbers of a dotted version: its `.`-separated pieces that read as
/// numbers, in order (the others are left out).
pub open spec fn dotted_numbers(s: Seq<char>, how: PieceReading) -> Seq<u32> {
    numbers(split_on(s, '.').map_values(|p: Seq<char>| piece_number(p, how)))
}

/// Lexicographic comparison of two version number lists (-1, 0 or 1); a
/// list that is a proper prefix of the other is the smaller.
pub open spec fn compare_numbers(a: Seq<u32>, b: Seq<u32>) -> int
    decreases a.len(),
{
    if a.len() == 0 || b.len() == 0 {
        if a.len() < b.len() {
            -1
        } else if a.len() > b.len() {
            1
        } else {
            0
        }
    } else if a[0] < b[0] {
        -1
    } else if a[0] > b[0] {
        1
    } else {
        compare_numbers(a.drop_first(), b.drop_first())
    }
}

/// `s` without its trailing `*`s.
pub open spec fn trim_stars(s: Seq<char>) -> Seq<char>
    decreases s.len(),
{
    if s.len() > 0 && s.last() == '*' {
        trim_stars(s.drop_last())
    } else {
        s
    }
}

/// Whether the version numbers start with `p`.
pub open spec fn starts_with_numbers(v: Seq<u32>, p: Seq<u32>) -> bool {
    p.len() <= v.len() && v.take(p.len() as int) == p
}

/// Whether version `v` satisfies one constraint `c`: `^X.Y` (at least X.Y,
/// same major), `~X.Y` (at least X.Y, same major and minor), a `*`
/// wildcard prefix, `>=`, `<=`, `>`, `<`, `==`, or an exact version.
pub open spec fn satisfies_one(v: Seq<u32>, c: Seq<char>) -> bool {
    if has_prefix(c, seq!['^']) {
        let t = dotted_numbers(c.drop_first(), PieceReading::Trimmed);
        t.len() == 0 || (compare_numbers(v, t) >= 0 && v.len() > 0 && v[0] == t[0])
    } else if has_prefix(c, seq!['~']) {
        let t = dotted_numbers(c.drop_first(), PieceReading::Trimmed);
        t.len() < 2 || (v.len() >= 2 && v[0] == t[0] && v[1] == t[1] && compare_numbers(v, t) >= 0)
    } else if c.len() > 0 && c.last() == '*' {
        starts_with_numbers(v, dotted_numbers(trim_stars(c), PieceReading::Raw))
    } else if has_prefix(c, seq!['>', '=']) {
        compare_numbers(v, dotted_numbers(trimmed(c.skip(2)), PieceReading::Trimmed)) >= 0
    } else if has_prefix(c, seq!['<', '=']) {
        compare_numbers(v, dotted_numbers(trimmed(c.skip(2)), PieceReading::Trimmed)) <= 0
    } else if has_prefix(c, seq!['>']) {
        compare_numbers(v, dotted_numbers(trimmed(c.skip(1)), PieceReading::Trimmed)) > 0
    } else if has_prefix(c, seq!['<']) {
        compare_numbers(v, dotted_numbers(trimmed(c.skip(1)), PieceReading::Trimmed)) < 0
    } else if has_prefix(c, seq!['=', '=']) {
        compare_numbers(v, dotted_numbers(trimmed(c.skip(2)), PieceReading::Trimmed)) == 0
    } else {
        v == dotted_numbers(c, PieceReading::Trimmed)
    }
}

/// The pieces of `s` between occurrences of `||`, as `str::split("||")`
/// yields them.
pub open spec fn split_bars(s: Seq<char>) -> Seq<Seq<char>>
    decreases s.len(),
{
    if s.len() >= 2 && s[0] == '|' && s[1] == '|' {
        seq![Seq::<char>::empty()] + split_bars(s.skip(2))
    } else if s.len() == 0 {
        seq![Seq::<char>::empty()]
    } else {
        let rest = split_bars(s.drop_first());
        rest.update(0, seq![s[0]] + rest[0])
    }
}

/// Splitting always yields at least one piece.
pub proof fn lemma_split_bars_nonempty(s: Seq<char>)
    ensures
        split_bars(s).len() >= 1,
    decreases s.len(),
{
    if s.len() >= 2 && s[0] == '|' && s[1] == '|' {
        lemma_split_bars_nonempty(s.skip(2));
    } else if s.len() > 0 {
        lemma_split_bars_nonempty(s.drop_first());
    }
}

/// Whether an installed version satisfies a Composer PHP constraint: the
/// version has at least one number, and one of the `||`-separated
/// alternatives (trimmed, not empty) accepts it.
pub open spec fn version_satisfies_spec(version: Seq<char>, constraint: Seq<char>) -> bool {
    let v = dotted_numbers(version, PieceReading::LeadingDigits);
    let alts = split_bars(constraint);
    v.len() > 0 && exists|i: int|
        0 <= i < alts.len() && trimmed(#[trigger] alts[i]).len() > 0 && satisfies_one(
            v,
            trimmed(trimmed(alts[i])),
        )
}

/// The leading digits of `s`.
fn digit_prefix_of(s: &[char]) -> (r: Vec<char>)
    ensures
        r@ == digit_prefix(s@),
{
    let n = s.len();
    let mut i: usize = 0;
    while i < n && '0' <= s[i] && s[i] <= '9'
        invariant
            n == s@.len(),
            i <= n,
            forall|j: int| 0 <= j < i ==> is_digit(#[trigger] s@[j]),
        decreases n - i,
    {
        i = i + 1;
    }
    let mut r: Vec<char> = Vec::new();
    let mut k: usize = 0;
    while k < i
        invariant
            i <= n,
            n == s@.len(),
            k <= i,
            r@ == s@.take(k as int),
        decreases i - k,
    {
        r.push(s[k]);
        assert(r@ =~= s@.take(k + 1));
        k = k + 1;
    }
    proof {
        lemma_digit_prefix(s@, i as int);
    }
    r
}

/// The digit prefix ends at the first non-digit.
proof fn lemma_digit_prefix(s: Seq<char>, i: int)
    requires
        0 <= i <= s.len(),
        forall|j: int| 0 <= j < i ==> is_digit(#[trigger] s[j]),
        i == s.len() || !is_digit(s[i]),
    ensures
        digit_prefix(s) == s.take(i),
    decreases i,
{
    if i == 0 {
        assert(s.take(0) =~= Seq::<char>::empty());
    } else {
        let t = s.drop_first();
        assert forall|j: int| 0 <= j < i - 1 implies is_digit(#[trigger] t[j]) by {
            assert(t[j] == s[j + 1]);
        }
        if i < s.len() {
            assert(t[i - 1] == s[i]);
        }
        assert(is_digit(s[0]));
        lemma_digit_prefix(t, i - 1);
        assert(seq![s[0]] + t.take(i - 1) =~= s.take(i));
    }
}

/// Parses a `u32` as `str::parse::<u32>` does.
fn parse_u32_of(s: &[char]) -> (r: Option<u32>)
    ensures
        r == parse_u32_text(s@),
{
    match parse_u64(s) {
        Some(v) => if v <= 0xffff_ffff {
            Some(v as u32)
        } else {
            None
        },
        None => None,
    }
}

/// The number a piece gives, read as `how` says.
fn piece_number_of(p: &[char], how: &PieceReading) -> (r: Option<u32>)
    ensures
        r == piece_number(p@, *how),
{
    match how {
        PieceReading::LeadingDigits => {
            let d = digit_prefix_of(p);
            parse_u32_of(d.as_slice())
        },
        PieceReading::Trimmed => {
            let (a, b) = trim_bounds(p);
            parse_u32_of(slice_subrange(p, a, b))
        },
        PieceReading::Raw => parse_u32_of(p),
    }
}

/// The numbers of a dotted version.
pub fn dotted_numbers_of(s: &[char], how: PieceReading) -> (r: Vec<u32>)
    ensures
        r@ == dotted_numbers(s@, how),
{
    let pieces = split_chars(s, '.');
    let ghost all = split_on(s@, '.').map_values(|p: Seq<char>| piece_number(p, how));
    let mut out: Vec<u32> = Vec::new();
    let mut i: usize = 0;
    assert(all.take(0) =~= Seq::<Option<u32>>::empty());
    while i < pieces.len()
        invariant
            i <= pieces@.len(),
            pieces@.len() == split_on(s@, '.').len(),
            forall|j: int| 0 <= j < pieces@.len() ==> #[trigger] pieces@[j]@ == split_on(s@, '.')[j],
            all == split_on(s@, '.').map_values(|p: Seq<char>| piece_number(p, how)),
            out@ == numbers(all.take(i as int)),
        decreases pieces@.len() - i,
    {
        assert(all.take(i + 1).drop_last() =~= all.take(i as int));
        assert(all[i as int] == piece_number(pieces@[i as int]@, how));
        match piece_number_of(pieces[i].as_slice(), &how) {
            Some(n) => {
                out.push(n);
                assert(out@ =~= numbers(all.take(i + 1)));
            },
            None => {
                assert(out@ =~= numbers(all.take(i + 1)));
            },
        }
        i = i + 1;
    }
    assert(all.take(pieces@.len() as int) =~= all);
    out
}

/// Compares two version number lists lexicographically.
pub fn compare_numbers_of(a: &[u32], b: &[u32]) -> (r: i8)
    ensures
        r as int == compare_numbers(a@, b@),
{
    let n = a.len();
    let m = b.len();
    let mut i: usize = 0;
    assert(a@.skip(0) =~= a@);
    assert(b@.skip(0) =~= b@);
    while i < n && i < m
        invariant
            n == a@.len(),
            m == b@.len(),
            i <= n,
            i <= m,
            compare_numbers(a@, b@) == compare_numbers(a@.skip(i as int), b@.skip(i as int)),
        decreases n - i,
    {
        assert(a@.skip(i as int)[0] == a@[i as int]);
        assert(b@.skip(i as int)[0] == b@[i as int]);
        if a[i] < b[i] {
            return -1;
        }
        if a[i] > b[i] {
            return 1;
        }
        assert(a@.skip(i as int).drop_first() =~= a@.skip(i + 1));
        assert(b@.skip(i as int).drop_first() =~= b@.skip(i + 1));
        i = i + 1;
    }
    if n < m {
        -1
    } else if n > m {
        1
    } else {
        0
    }
}

/// `s` without its trailing `*`s.
fn trim_stars_of(s: &[char]) -> (r: &[char])
    ensures
        r@ == trim_stars(s@),
{
    let mut e: usize = s.len();
    assert(s@.take(e as int) =~= s@);
    while e > 0 && s[e - 1] == '*'
        invariant
            e <= s@.len(),
            trim_stars(s@) == trim_stars(s@.take(e as int)),
        decreases e,
    {
        assert(s@.take(e as int).drop_last() =~= s@.take(e - 1));
        e = e - 1;
    }
    let r = slice_subrange(s, 0, e);
    assert(r@ =~= s@.take(e as int));
    r
}

/// Whether the characters start with `p`.
fn starts_with_chars(c: &[char], p: &[char]) -> (r: bool)
    ensures
        r == has_prefix(c@, p@),
{
    if p.len() > c.len() {
        return false;
    }
    let mut i: usize = 0;
    while i < p.len()
        invariant
            p@.len() <= c@.len(),
            i <= p@.len(),
            forall|j: int| 0 <= j < i ==> c@[j] == p@[j],
        decreases p@.len() - i,
    {
        if c[i] != p[i] {
            assert(c@.take(p@.len() as int)[i as int] != p@[i as int]);
            return false;
        }
        i = i + 1;
    }
    assert(c@.take(p@.len() as int) =~= p@);
    true
}

/// The numbers after the first `k` characters, trimmed.
fn numbers_after(c: &[char], k: usize) -> (r: Vec<u32>)
    requires
        k <= c@.len(),
    ensures
        r@ == dotted_numbers(trimmed(c@.skip(k as int)), PieceReading::Trimmed),
{
    let rest = slice_subrange(c, k, c.len());
    assert(rest@ =~= c@.skip(k as int));
    let (a, b) = trim_bounds(rest);
    dotted_numbers_of(slice_subrange(rest, a, b), PieceReading::Trimmed)
}

/// Whether the version numbers start with `p`.
fn starts_with_u32(v: &[u32], p: &[u32]) -> (r: bool)
    ensures
        r == starts_with_numbers(v@, p@),
{
    if p.len() > v.len() {
        return false;
    }
    let mut i: usize = 0;
    while i < p.len()
        invariant
            p@.len() <= v@.len(),
            i <= p@.len(),
            forall|j: int| 0 <= j < i ==> v@[j] == p@[j],
        decreases p@.len() - i,
    {
        if v[i] != p[i] {
            assert(v@.take(p@.len() as int)[i as int] != p@[i as int]);
            return false;
        }
        i = i + 1;
    }
    assert(v@.take(p@.len() as int) =~= p@);
    true
}

/// Whether two version number lists are equal.
fn same_u32(v: &[u32], t: &[u32]) -> (r: bool)
    ensures
        r == (v@ == t@),
{
    if t.len() != v.len() {
        return false;
    }
    let mut i: usize = 0;
    while i < t.len()
        invariant
            t@.len() == v@.len(),
            i <= t@.len(),
            forall|j: int| 0 <= j < i ==> v@[j] == t@[j],
        decreases t@.len() - i,
    {
        if v[i] != t[i] {
            return false;
        }
        i = i + 1;
    }
    assert(v@ =~= t@);
    true
}

/// Whether version `v` satisfies the single constraint `c`.
fn satisfies_one_of(v: &[u32], c: &[char]) -> (r: bool)
    ensures
        r == satisfies_one(v@, c@),
{
    let caret: [char; 1] = ['^'];
    let tilde: [char; 1] = ['~'];
    let ge: [char; 2] = ['>', '='];
    let le: [char; 2] = ['<', '='];
    let gt: [char; 1] = ['>'];
    let lt: [char; 1] = ['<'];
    let eq: [char; 2] = ['=', '='];
    assert(caret@ =~= seq!['^']);
    assert(tilde@ =~= seq!['~']);
    assert(ge@ =~= seq!['>', '=']);
    assert(le@ =~= seq!['<', '=']);
    assert(gt@ =~= seq!['>']);
    assert(lt@ =~= seq!['<']);
    assert(eq@ =~= seq!['=', '=']);
    if starts_with_chars(c, caret.as_slice()) {
        let rest = slice_subrange(c, 1, c.len());
        assert(rest@ =~= c@.drop_first());
        let t = dotted_numbers_of(rest, PieceReading::Trimmed);
        t.len() == 0 || (compare_numbers_of(v, t.as_slice()) >= 0 && v.len() > 0 && v[0] == t[0])
    } else if starts_with_chars(c, tilde.as_slice()) {
        let rest = slice_subrange(c, 1, c.len());
        assert(rest@ =~= c@.drop_first());
        let t = dotted_numbers_of(rest, PieceReading::Trimmed);
        t.len() < 2 || (v.len() >= 2 && v[0] == t[0] && v[1] == t[1] && compare_numbers_of(v, t.as_slice())
            >= 0)
    } else if c.len() > 0 && c[c.len() - 1] == '*' {
        let p = dotted_numbers_of(trim_stars_of(c), PieceReading::Raw);
        starts_with_u32(v, p.as_slice())
    } else if starts_with_chars(c, ge.as_slice()) {
        let t = numbers_after(c, 2);
        compare_numbers_of(v, t.as_slice()) >= 0
    } else if starts_with_chars(c, le.as_slice()) {
        let t = numbers_after(c, 2);
        compare_numbers_of(v, t.as_slice()) <= 0
    } else if starts_with_chars(c, gt.as_slice()) {
        let t = numbers_after(c, 1);
        compare_numbers_of(v, t.as_slice()) > 0
    } else if starts_with_chars(c, lt.as_slice()) {
        let t = numbers_after(c, 1);
        compare_numbers_of(v, t.as_slice()) < 0
    } else if starts_with_chars(c, eq.as_slice()) {
        let t = numbers_after(c, 2);
        compare_numbers_of(v, t.as_slice()) == 0
    } else {
        let t = dotted_numbers_of(c, PieceReading::Trimmed);
        same_u32(v, t.as_slice())
    }
}

/// The pieces of `s` between occurrences of `||`.
pub fn split_bars_of(s: &[char]) -> (r: Vec<Vec<char>>)
    ensures
        r@.len() == split_bars(s@).len(),
        forall|i: int| 0 <= i < r@.len() ==> #[trigger] r@[i]@ == split_bars(s@)[i],
{
    let n = s.len();
    let mut done: Vec<Vec<char>> = Vec::new();
    let ghost dv: Seq<Seq<char>> = Seq::empty();
    let mut cur: Vec<char> = Vec::new();
    let mut i: usize = 0;
    assert(s@.skip(0) =~= s@);
    proof {
        lemma_split_bars_nonempty(s@);
    }
    while i < n
        invariant
            n == s@.len(),
            i <= n,
            done@.len() == dv.len(),
            forall|k: int| 0 <= k < done@.len() ==> #[trigger] done@[k]@ == dv[k],
            split_bars(s@.skip(i as int)).len() >= 1,
            dv + seq![cur@ + split_bars(s@.skip(i as int))[0]] + split_bars(s@.skip(i as int)).drop_first()
                == split_bars(s@),
        decreases n - i,
    {
        let ghost t = s@.skip(i as int);
        if i + 1 < n && s[i] == '|' && s[i + 1] == '|' {
            assert(t[0] == '|' && t[1] == '|');
            assert(t.skip(2) =~= s@.skip(i + 2));
            proof {
                lemma_split_bars_nonempty(s@.skip(i + 2));
            }
            let ghost sp = split_bars(s@.skip(i + 2));
            assert(split_bars(t) == seq![Seq::<char>::empty()] + sp);
            let ghost old_dv = dv;
            let ghost old_cur = cur@;
            proof {
                dv = dv.push(cur@);
            }
            done.push(cur);
            cur = Vec::new();
            assert(dv + seq![cur@ + sp[0]] + sp.drop_first() =~= old_dv + seq![old_cur + split_bars(t)[0]]
                + split_bars(t).drop_first());
            i = i + 2;
        } else {
            assert(t.drop_first() =~= s@.skip(i + 1));
            assert(!(t.len() >= 2 && t[0] == '|' && t[1] == '|'));
            proof {
                lemma_split_bars_nonempty(s@.skip(i + 1));
            }
            let ghost sp = split_bars(s@.skip(i + 1));
            assert(split_bars(t) == sp.update(0, seq![s@[i as int]] + sp[0]));
            let ghost old_cur = cur@;
            cur.push(s[i]);
            assert(cur@ + sp[0] =~= old_cur + (seq![s@[i as int]] + sp[0]));
            assert(sp.drop_first() =~= split_bars(t).drop_first());
            i = i + 1;
        }
    }
    assert(s@.skip(n as int) =~= Seq::<char>::empty());
    assert(split_bars(Seq::<char>::empty()) =~= seq![Seq::<char>::empty()]);
    let ghost last = cur@;
    done.push(cur);
    assert(dv.push(last) =~= split_bars(s@)) by {
        assert(last + Seq::<char>::empty() =~= last);
    }
    done
}

/// Whether the installed PHP `version` (as `php -v` prints it) satisfies
/// the Composer constraint `constraint` (such as `^8.2`, `>=8.0`, `8.*`,
/// `~8.1.0` or `8.1 || 8.2`).
pub fn version_satisfies(version: &str, constraint: &str) -> (r: bool)
    ensures
        r == version_satisfies_spec(version@, constraint@),
{
    let vc = chars_of(version);
    let v = dotted_numbers_of(vc.as_slice(), PieceReading::LeadingDigits);
    if v.len() == 0 {
        return false;
    }
    let cc = chars_of(constraint);
    let alts = split_bars_of(cc.as_slice());
    let ghost a = split_bars(constraint@);
    let mut i: usize = 0;
    while i < alts.len()
        invariant
            i <= alts@.len(),
            alts@.len() == a.len(),
            a == split_bars(constraint@),
            v@ == dotted_numbers(version@, PieceReading::LeadingDigits),
            v@.len() > 0,
            forall|k: int| 0 <= k < alts@.len() ==> #[trigger] alts@[k]@ == a[k],
            forall|k: int|
                0 <= k < i ==> !(trimmed(#[trigger] a[k]).len() > 0 && satisfies_one(
                    v@,
                    trimmed(trimmed(a[k])),
                )),
        decreases alts@.len() - i,
    {
        let (x, y) = trim_bounds(alts[i].as_slice());
        let part = slice_subrange(alts[i].as_slice(), x, y);
        assert(part@ == trimmed(a[i as int]));
        if part.len() > 0 {
            let (p, q) = trim_bounds(part);
            let c = slice_subrange(part, p, q);
            if satisfies_one_of(v.as_slice(), c) {
                assert(trimmed(a[i as int]).len() > 0 && satisfies_one(v@, trimmed(trimmed(a[i as int]))));
                return true;
            }
        }
        i = i + 1;
    }
    false
}

/// The extension names among the keys of a Composer `require` table: the
/// keys that start with `ext-`, without it, in order.
pub open spec fn ext_names(keys: Seq<Seq<char>>) -> Seq<Seq<char>>
    decreases keys.len(),
{
    if keys.len() == 0 {
        Seq::empty()
    } else {
        ext_names(keys.drop_last()) + if has_prefix(keys.last(), "ext-"@) {
            seq![keys.last().skip(4)]
        } else {
            Seq::empty()
        }
    }
}

/// What a `composer.json` text requires of the platform: the PHP version
/// constraint (`require.php`, when it is a string) and the extensions; or
/// the refusal of a text that is not JSON.
pub open spec fn composer_platform(content: Seq<char>) -> Result<(Option<Seq<char>>, Seq<Seq<char>>), Seq<char>> {
    match json_syntax_error(content) {
        Some(e) => Err("failed to parse composer.json: "@ + e),
        None => Ok(
            (
                json_string_at_path(content, seq!["require"@, "php"@]),
                match json_object_keys_at(content, "require"@) {
                    Some(ks) => ext_names(ks),
                    None => Seq::empty(),
                },
            ),
        ),
    }
}

/// The platform requirements of a Composer project.
#[derive(Debug)]
pub struct PlatformRequirements {
    /// The PHP version constraint, if any.
    pub php: Option<String>,
    /// The required extensions, by name.
    pub extensions: Vec<String>,
}

/// The extension names among `require` keys.
fn ext_names_of(keys: &Vec<String>) -> (r: Vec<String>)
    ensures
        string_views(r@) == ext_names(string_views(keys@)),
{
    proof {
        reveal_strlit("ext-");
    }
    let mut out: Vec<String> = Vec::new();
    let mut i: usize = 0;
    assert(string_views(keys@).take(0) =~= Seq::<Seq<char>>::empty());
    assert(string_views(out@) =~= Seq::<Seq<char>>::empty());
    while i < keys.len()
        invariant
            i <= keys@.len(),
            "ext-"@.len() == 4,
            string_views(out@) == ext_names(string_views(keys@).take(i as int)),
        decreases keys@.len() - i,
    {
        let ghost ks = string_views(keys@);
        assert(ks.take(i + 1).drop_last() =~= ks.take(i as int));
        assert(ks.take(i + 1).last() == keys@[i as int]@);
        let ghost before = string_views(out@);
        let k = keys[i].as_str();
        if str_starts_with(k, "ext-") {
            let kc = chars_of(k);
            let name = string_from_chars(slice_subrange(kc.as_slice(), 4, kc.len()));
            assert(name@ =~= k@.skip(4));
            out.push(name);
            assert(string_views(out@) =~= before.push(k@.skip(4)));
        }
        assert(string_views(out@) =~= ext_names(ks.take(i + 1)));
        i = i + 1;
    }
    assert(string_views(keys@).take(keys@.len() as int) =~= string_views(keys@));
    out
}

/// Reads the platform requirements of a `composer.json` text.
pub fn composer_requirements(content: &str) -> (r: Result<PlatformRequirements, String>)
    ensures
        match r {
            Ok(p) => composer_platform(content@) == Ok::<(Option<Seq<char>>, Seq<Seq<char>>), Seq<char>>(
                (opt_chars(p.php), string_views(p.extensions@)),
            ),
            Err(e) => composer_platform(content@) == Err::<(Option<Seq<char>>, Seq<Seq<char>>), Seq<char>>(e@),
        },
{
    if let Some(e) = json_syntax_check(content) {
        let mut m = owned("failed to parse composer.json: ");
        push_str(&mut m, e.as_str());
        return Err(m);
    }
    let path: [&str; 2] = ["require", "php"];
    assert(path_view(path@) =~= seq!["require"@, "php"@]);
    let php = json_string_at(content, path.as_slice());
    let extensions = match json_object_keys(content, "require") {
        Some(keys) => ext_names_of(&keys),
        None => {
            let e: Vec<String> = Vec::new();
            assert(string_views(e@) =~= Seq::<Seq<char>>::empty());
            e
        },
    };
    Ok(PlatformRequirements { php, extensions })
}

/// The lines of a text, as `str::lines` yields them (the trailing empty
/// piece after a final newline is not a line; line ends are trimmed by the
/// readers below, so a `\r` before them does not matter).
pub open spec fn lines_of(s: Seq<char>) -> Seq<Seq<char>> {
    let p = split_on(s, '\n');
    if p.len() > 0 && p.last().len() == 0 {
        p.drop_last()
    } else {
        p
    }
}

/// The version `php -v` prints: the second word of its first line.
pub open spec fn php_version_in(output: Seq<char>) -> Option<Seq<char>> {
    let ls = lines_of(output);
    if ls.len() > 0 && words(ls[0]).len() >= 2 {
        Some(words(ls[0])[1])
    } else {
        None
    }
}

/// The lines of a text.
fn lines_in(s: &str) -> (r: Vec<Vec<char>>)
    ensures
        r@.len() == lines_of(s@).len(),
        forall|i: int| 0 <= i < r@.len() ==> #[trigger] r@[i]@ == lines_of(s@)[i],
{
    let cs = chars_of(s);
    let mut pieces = split_chars(cs.as_slice(), '\n');
    proof {
        lemma_split_on_nonempty(s@, '\n');
    }
    let n = pieces.len();
    if n > 0 && pieces[n - 1].len() == 0 {
        let ghost before = pieces@;
        pieces.pop();
        assert(forall|i: int| 0 <= i < pieces@.len() ==> pieces@[i] == before[i]);
    }
    pieces
}

/// The PHP version in the output of `php -v`.
pub fn php_version_from_output(output: &str) -> (r: Option<String>)
    ensures
        opt_chars(r) == php_version_in(output@),
{
    let ls = lines_in(output);
    if ls.len() == 0 {
        return None;
    }
    let ws = split_whitespace(ls[0].as_slice());
    if ws.len() < 2 {
        return None;
    }
    Some(string_from_chars(ws[1].as_slice()))
}

/// The modules `php -m` lists, each trimmed and lowercased.
pub open spec fn available_modules(output: Seq<char>) -> Seq<Seq<char>> {
    lines_of(output).map_values(|l: Seq<char>| lowercase(trimmed(l)))
}

/// The required extensions that are not among the available modules
/// (compared in lowercase), in order.
pub open spec fn missing_among(req: Seq<Seq<char>>, avail: Seq<Seq<char>>) -> Seq<Seq<char>>
    decreases req.len(),
{
    if req.len() == 0 {
        Seq::empty()
    } else {
        missing_among(req.drop_last(), avail) + if avail.contains(lowercase(req.last())) {
            Seq::empty()
        } else {
            seq![req.last()]
        }
    }
}

/// The modules `php -m` lists.
fn modules_in(output: &str) -> (r: Vec<String>)
    ensures
        string_views(r@) == available_modules(output@),
{
    let ls = lines_in(output);
    let mut out: Vec<String> = Vec::new();
    let mut i: usize = 0;
    while i < ls.len()
        invariant
            i <= ls@.len(),
            ls@.len() == lines_of(output@).len(),
            forall|k: int| 0 <= k < ls@.len() ==> #[trigger] ls@[k]@ == lines_of(output@)[k],
            string_views(out@) == available_modules(output@).take(i as int),
        decreases ls@.len() - i,
    {
        let (a, b) = trim_bounds(ls[i].as_slice());
        let t = string_from_chars(slice_subrange(ls[i].as_slice(), a, b));
        let low = to_lowercase(t.as_str());
        assert(t@ == trimmed(lines_of(output@)[i as int]));
        assert(available_modules(output@)[i as int] == low@);
        let ghost before = string_views(out@);
        out.push(low);
        assert(string_views(out@) =~= before.push(low@));
        assert(available_modules(output@).take(i + 1) =~= available_modules(output@).take(i as int).push(
            low@,
        ));
        assert(string_views(out@) =~= available_modules(output@).take(i + 1));
        i = i + 1;
    }
    assert(available_modules(output@).take(ls@.len() as int) =~= available_modules(output@));
    out
}

/// The required extensions that the builder's PHP lacks, given the output
/// of `php -m`.
pub fn missing_extensions(required: &Vec<String>, php_m_output: &str) -> (r: Vec<String>)
    ensures
        string_views(r@) == missing_among(string_views(required@), available_modules(php_m_output@)),
{
    let avail = modules_in(php_m_output);
    let ghost av = available_modules(php_m_output@);
    let mut out: Vec<String> = Vec::new();
    let mut i: usize = 0;
    assert(string_views(required@).take(0) =~= Seq::<Seq<char>>::empty());
    assert(string_views(out@) =~= Seq::<Seq<char>>::empty());
    while i < required.len()
        invariant
            i <= required@.len(),
            string_views(avail@) == av,
            string_views(out@) == missing_among(string_views(required@).take(i as int), av),
        decreases required@.len() - i,
    {
        let ghost rs = string_views(required@);
        assert(rs.take(i + 1).drop_last() =~= rs.take(i as int));
        assert(rs.take(i + 1).last() == required@[i as int]@);
        let low = to_lowercase(required[i].as_str());
        let mut found = false;
        let mut j: usize = 0;
        while j < avail.len()
            invariant
                j <= avail@.len(),
                string_views(avail@) == av,
                found <==> exists|q: int| 0 <= q < j && av[q] == low@,
            decreases avail@.len() - j,
        {
            assert(av[j as int] == avail@[j as int]@);
            if str_eq(avail[j].as_str(), low.as_str()) {
                found = true;
                assert(av[j as int] == low@);
            }
            j = j + 1;
        }
        assert(found <==> av.contains(low@)) by {
            if av.contains(low@) {
                let q = choose|q: int| 0 <= q < av.len() && av[q] == low@;
                assert(0 <= q < avail@.len());
            }
        }
        let ghost before = string_views(out@);
        if !found {
            out.push(owned(required[i].as_str()));
            assert(string_views(out@) =~= before.push(required@[i as int]@));
        }
        assert(string_views(out@) =~= missing_among(rs.take(i + 1), av));
        i = i + 1;
    }
    assert(string_views(required@).take(required@.len() as int) =~= string_views(required@));
    out
}

/// The report on PHP extensions: the missing ones with how to install them,
/// or (in verbose mode) that all `required_count` are available.
pub open spec fn extension_report(missing: Seq<String>, required_count: nat, verbose: bool) -> Seq<Seq<char>> {
    if missing.len() > 0 {
        seq!["[erebus] warning: PHP extensions required by composer but not installed:"@] + missing.map_values(
            |e: String| "  ext-"@ + e@,
        ) + seq![
            "  Run: sudo apt install php-"@ + joined(missing, " php-"@),
            "  or: composer install --ignore-platform-reqs (will be used as fallback)"@,
        ] + if verbose {
            seq!["  Proceeding with --ignore-platform-reqs — runtime may fail if extensions are needed."@]
        } else {
            Seq::empty()
        }
    } else if verbose {
        seq!["  PHP platform extensions: all "@ + decimal(required_count) + " required extension(s) available"@]
    } else {
        Seq::empty()
    }
}

/// The report lines on PHP extensions.
pub fn extension_report_lines(missing: &Vec<String>, required_count: usize, verbose: bool) -> (r: Vec<String>)
    ensures
        string_views(r@) == extension_report(missing@, required_count as nat, verbose),
{
    let mut out: Vec<String> = Vec::new();
    if missing.len() > 0 {
        out.push(owned("[erebus] warning: PHP extensions required by composer but not installed:"));
        let mut i: usize = 0;
        while i < missing.len()
            invariant
                i <= missing@.len(),
                string_views(out@) == seq!["[erebus] warning: PHP extensions required by composer but not installed:"@]
                    + missing@.take(i as int).map_values(|e: String| "  ext-"@ + e@),
            decreases missing@.len() - i,
        {
            let mut l = owned("  ext-");
            push_str(&mut l, missing[i].as_str());
            let ghost before = string_views(out@);
            out.push(l);
            assert(missing@.take(i + 1).map_values(|e: String| "  ext-"@ + e@) =~= missing@.take(
                i as int,
            ).map_values(|e: String| "  ext-"@ + e@).push("  ext-"@ + missing@[i as int]@));
            assert(string_views(out@) =~= before.push("  ext-"@ + missing@[i as int]@));
            i = i + 1;
        }
        assert(missing@.take(missing@.len() as int) =~= missing@);
        let ghost mid = string_views(out@);
        let mut run = owned("  Run: sudo apt install php-");
        write_joined(&mut run, missing, " php-");
        out.push(run);
        out.push(owned("  or: composer install --ignore-platform-reqs (will be used as fallback)"));
        if verbose {
            out.push(owned("  Proceeding with --ignore-platform-reqs — runtime may fail if extensions are needed."));
        }
        assert(string_views(out@) =~= extension_report(missing@, required_count as nat, verbose));
    } else if verbose {
        let mut l = owned("  PHP platform extensions: all ");
        let d = decimal_string(required_count as u64);
        push_str(&mut l, d.as_str());
        push_str(&mut l, " required extension(s) available");
        out.push(l);
        assert(string_views(out@) =~= extension_report(missing@, required_count as nat, verbose));
    } else {
        assert(string_views(out@) =~= extension_report(missing@, required_count as nat, verbose));
    }
    out
}

/// The PHP binaries worth looking for when the constraint is `^X...`:
/// `php` and `phpX`.
pub open spec fn php_candidates(constraint: Seq<char>) -> Option<Seq<Seq<char>>> {
    if has_prefix(constraint, seq!['^']) {
        Some(seq!["php"@, "php"@ + split_on(constraint.drop_first(), '.')[0]])
    } else {
        None
    }
}

/// The PHP binaries to look for on `PATH` for a constraint.
pub fn php_binary_candidates(constraint: &str) -> (r: Option<Vec<String>>)
    ensures
        match r {
            Some(v) => php_candidates(constraint@) == Some(string_views(v@)),
            None => php_candidates(constraint@) is None,
        },
{
    let cs = chars_of(constraint);
    if cs.len() == 0 || cs[0] != '^' {
        assert(!has_prefix(constraint@, seq!['^'])) by {
            if constraint@.len() >= 1 {
                assert(constraint@.take(1)[0] == cs@[0]);
            }
        }
        return None;
    }
    assert(has_prefix(cs@, seq!['^'])) by {
        assert(cs@.take(1) =~= seq!['^']);
    }
    let rest = slice_subrange(cs.as_slice(), 1, cs.len());
    assert(rest@ =~= constraint@.drop_first());
    let parts = split_chars(rest, '.');
    proof {
        lemma_split_on_nonempty(rest@, '.');
    }
    let mut second = owned("php");
    let major = string_from_chars(parts[0].as_slice());
    push_str(&mut second, major.as_str());
    let v = vec![owned("php"), second];
    assert(string_views(v@) =~= seq!["php"@, "php"@ + split_on(constraint@.drop_first(), '.')[0]]);
    Some(v)
}

/// The Node.js distribution (architecture and OS names of nodejs.org) for a
/// target, or for the host (`host_arch`, `host_os` as Rust names them) when
/// there is none. Targets are limited to x64 and arm64 builds of Linux,
/// macOS and Windows.
pub open spec fn node_platform(target: Option<Seq<char>>, host_arch: Seq<char>, host_os: Seq<char>) -> Result<
    (Seq<char>, Seq<char>),
    Seq<char>,
> {
    match target {
        Some(t) => {
            let a = target_arch(t, host_arch);
            let o = target_os(t);
            if !(a == "x86_64"@ || a == "amd64"@ || a == "aarch64"@ || a == "arm64"@) {
                Err("unsupported cross-compile architecture: "@ + a)
            } else if !(o == "linux"@ || o == "darwin"@ || o == "windows"@) {
                Err("unsupported cross-compile OS: "@ + o)
            } else {
                Ok(
                    (
                        if a == "x86_64"@ || a == "amd64"@ {
                            "x64"@
                        } else {
                            "arm64"@
                        },
                        if o == "windows"@ {
                            "win"@
                        } else {
                            o
                        },
                    ),
                )
            }
        },
        None => Ok(
            (
                if host_arch == "x86_64"@ {
                    "x64"@
                } else if host_arch == "aarch64"@ {
                    "arm64"@
                } else {
                    host_arch
                },
                if host_os == "macos"@ {
                    "darwin"@
                } else if host_os == "windows"@ {
                    "win"@
                } else {
                    host_os
                },
            ),
        ),
    }
}

/// The Node.js distribution (architecture, OS) to download.
pub fn node_dist_platform(target: Option<&str>, host_arch: &str, host_os: &str) -> (r: Result<(String, String), String>)
    ensures
        match r {
            Ok(p) => node_platform(opt_view(target), host_arch@, host_os@) == Ok::<(Seq<char>, Seq<char>), Seq<char>>(
                (p.0@, p.1@),
            ),
            Err(e) => node_platform(opt_view(target), host_arch@, host_os@) == Err::<(Seq<char>, Seq<char>), Seq<char>>(
                e@,
            ),
        },
{
    match target {
        Some(t) => {
            let (a, o) = parse_target(t, host_arch);
            let x64 = str_eq(a.as_str(), "x86_64") || str_eq(a.as_str(), "amd64");
            let arm = str_eq(a.as_str(), "aarch64") || str_eq(a.as_str(), "arm64");
            if !(x64 || arm) {
                let mut m = owned("unsupported cross-compile architecture: ");
                push_str(&mut m, a.as_str());
                return Err(m);
            }
            let win = str_eq(o.as_str(), "windows");
            if !(str_eq(o.as_str(), "linux") || str_eq(o.as_str(), "darwin") || win) {
                let mut m = owned("unsupported cross-compile OS: ");
                push_str(&mut m, o.as_str());
                return Err(m);
            }
            let na = if x64 {
                owned("x64")
            } else {
                owned("arm64")
            };
            let no = if win {
                owned("win")
            } else {
                o
            };
            Ok((na, no))
        },
        None => {
            let na = if str_eq(host_arch, "x86_64") {
                owned("x64")
            } else if str_eq(host_arch, "aarch64") {
                owned("arm64")
            } else {
                owned(host_arch)
            };
            let no = if str_eq(host_os, "macos") {
                owned("darwin")
            } else if str_eq(host_os, "windows") {
                owned("win")
            } else {
                owned(host_os)
            };
            Ok((na, no))
        },
    }
}

/// The archive nodejs.org serves for a version and platform: `.tar.gz` for
/// macOS, `.zip` for Windows, `.tar.xz` otherwise.
pub open spec fn node_archive_name(version: Seq<char>, os: Seq<char>, arch: Seq<char>) -> Seq<char> {
    "node-v"@ + version + "-"@ + os + "-"@ + arch + "."@ + if os == "darwin"@ {
        "tar.gz"@
    } else if os == "win"@ {
        "zip"@
    } else {
        "tar.xz"@
    }
}

/// The archive name and its download URL.
pub fn node_archive(version: &str, os: &str, arch: &str) -> (r: (String, String))
    ensures
        r.0@ == node_archive_name(version@, os@, arch@),
        r.1@ == "https://nodejs.org/dist/v"@ + version@ + "/"@ + node_archive_name(version@, os@, arch@),
{
    let mut name = owned("node-v");
    push_str(&mut name, version);
    push_str(&mut name, "-");
    push_str(&mut name, os);
    push_str(&mut name, "-");
    push_str(&mut name, arch);
    push_str(&mut name, ".");
    if str_eq(os, "darwin") {
        push_str(&mut name, "tar.gz");
    } else if str_eq(os, "win") {
        push_str(&mut name, "zip");
    } else {
        push_str(&mut name, "tar.xz");
    }
    let mut url = owned("https://nodejs.org/dist/v");
    push_str(&mut url, version);
    push_str(&mut url, "/");
    push_str(&mut url, name.as_str());
    (name, url)
}

} // verus!
