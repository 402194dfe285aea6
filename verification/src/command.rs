//! Parses what the user typed into the floating input.
//!
//! Rules:
//!   * `/dev on` and `/dev off` toggle dev mode (always recognised).
//!   * `/search <query>` applies a substring filter (always recognised);
//!     `/search` with no argument clears the filter.
//!   * `/del <ID>` soft-deletes (dev mode only); a `#` prefix on the ID is OK.
//!   * Slash-prefixed text that is not a recognised command is saved as a
//!     regular entry: no silent command behaviour in normal mode.
//!   * Anything else is saved as an entry.

use vstd::prelude::*;

use crate::text::{
    all_white_space, chars_of, decimal, has_prefix, is_ascii_digit, lemma_decimal_digits,
    lemma_parse_decimal, signed_decimal, lemma_trim_idempotent, lemma_trim_of_unpadded,
    lemma_trim_surrounding_ws,
    parse_i64, parse_i64_spec, range_equals_str, trim, trim_range,
};

verus! {

#[derive(Debug, Clone, PartialEq, Eq)]
pub enum Command {
    /// Save this text as a new entry.
    Insert(String),
    /// Enter dev mode.
    DevOn,
    /// Leave dev mode.
    DevOff,
    /// Soft-delete entry by ID (dev mode only).
    Delete(i64),
    /// `/del` typed without an argument while in dev mode.
    DelUsage,
    /// `/del foo`: the argument could not be parsed as a positive integer.
    DelBadId,
    /// `/search <query>`: apply a substring filter.
    Search(String),
    /// `/search` with no argument: clear any active filter.
    SearchClear,
}

/// The mathematical value of a [`Command`]: texts as character sequences.
pub enum CommandView {
    Insert(Seq<char>),
    DevOn,
    DevOff,
    Delete(int),
    DelUsage,
    DelBadId,
    Search(Seq<char>),
    SearchClear,
}

impl View for Command {
    type V = CommandView;

    open spec fn view(&self) -> CommandView {
        match self {
            Command::Insert(s) => CommandView::Insert(s@),
            Command::DevOn => CommandView::DevOn,
            Command::DevOff => CommandView::DevOff,
            Command::Delete(id) => CommandView::Delete(*id as int),
            Command::DelUsage => CommandView::DelUsage,
            Command::DelBadId => CommandView::DelBadId,
            Command::Search(q) => CommandView::Search(q@),
            Command::SearchClear => CommandView::SearchClear,
        }
    }
}

/// `s` with all leading `#` characters removed (`trim_start_matches('#')`).
pub open spec fn strip_hashes(s: Seq<char>) -> Seq<char>
    decreases s.len(),
{
    if s.len() > 0 && s[0] == '#' {
        strip_hashes(s.drop_first())
    } else {
        s
    }
}

/// The argument of `/del <arg>` after trimming and dropping `#` prefixes.
pub open spec fn del_argument(rest: Seq<char>) -> Seq<char> {
    trim(strip_hashes(trim(rest)))
}

/// What `/del <arg>` means in dev mode.
pub open spec fn del_command(rest: Seq<char>) -> CommandView {
    let arg = del_argument(rest);
    if arg.len() == 0 {
        CommandView::DelUsage
    } else {
        match parse_i64_spec(arg) {
            Some(id) => if id > 0 {
                CommandView::Delete(id)
            } else {
                CommandView::DelBadId
            },
            None => CommandView::DelBadId,
        }
    }
}

/// What the input means, per the rules at the top of this module.
pub open spec fn parse_spec(input: Seq<char>, dev_mode: bool) -> CommandView {
    let t = trim(input);
    if t == "/dev on"@ {
        CommandView::DevOn
    } else if t == "/dev off"@ {
        CommandView::DevOff
    } else if t == "/search"@ {
        CommandView::SearchClear
    } else if has_prefix(t, "/search "@) {
        let q = trim(t.skip("/search "@.len() as int));
        if q.len() == 0 {
            CommandView::SearchClear
        } else {
            CommandView::Search(q)
        }
    } else if dev_mode && t == "/del"@ {
        CommandView::DelUsage
    } else if dev_mode && has_prefix(t, "/del "@) {
        del_command(t.skip("/del "@.len() as int))
    } else {
        CommandView::Insert(t)
    }
}

proof fn lemma_strip_hashes_skip(s: Seq<char>, k: int)
    requires
        0 <= k <= s.len(),
        forall|j: int| 0 <= j < k ==> #[trigger] s[j] == '#',
        k == s.len() || s[k] != '#',
    ensures
        strip_hashes(s) == s.skip(k),
    decreases k,
{
    if k == 0 {
        assert(s.skip(0) =~= s);
    } else {
        let t = s.drop_first();
        assert forall|j: int| 0 <= j < k - 1 implies #[trigger] t[j] == '#' by {
            assert(t[j] == s[j + 1]);
        }
        if k - 1 < t.len() {
            assert(t[k - 1] == s[k]);
        }
        lemma_strip_hashes_skip(t, k - 1);
        assert(t.skip(k - 1) =~= s.skip(k));
    }
}

/// Interprets one line typed into the input, in normal or dev mode.
pub fn parse(input: &str, dev_mode: bool) -> (c: Command)
    ensures
        c@ == parse_spec(input@, dev_mode),
{
    let v = chars_of(input);
    let n = v.len();
    let (a, b) = trim_range(&v, 0, n);
    let ghost t = trim(input@);
    proof {
        assert(v@.subrange(0, n as int) =~= input@);
        reveal_strlit("/search ");
        reveal_strlit("/del ");
    }

    // Exact-match commands (gateways or argument-less forms).
    if range_equals_str(&v, a, b, "/dev on") {
        return Command::DevOn;
    }
    if range_equals_str(&v, a, b, "/dev off") {
        return Command::DevOff;
    }
    if range_equals_str(&v, a, b, "/search") {
        return Command::SearchClear;
    }

    // `/search <query>` works in any mode (read-only).
    let is_search = b - a >= 8 && range_equals_str(&v, a, a + 8, "/search ");
    proof {
        if b - a >= 8 {
            assert(t.take(8) =~= v@.subrange(a as int, a + 8));
        }
    }
    if is_search {
        let (qa, qb) = trim_range(&v, a + 8, b);
        proof {
            assert(t.skip(8) =~= v@.subrange(a + 8, b as int));
        }
        if qa == qb {
            return Command::SearchClear;
        }
        let q = input.substring_char(qa, qb).to_owned();
        return Command::Search(q);
    }

    if dev_mode {
        if range_equals_str(&v, a, b, "/del") {
            return Command::DelUsage;
        }
        let is_del = b - a >= 5 && range_equals_str(&v, a, a + 5, "/del ");
        proof {
            if b - a >= 5 {
                assert(t.take(5) =~= v@.subrange(a as int, a + 5));
            }
        }
        if is_del {
            let ghost rest = t.skip(5);
            proof {
                assert(rest =~= v@.subrange(a + 5, b as int));
            }
            let (ra, rb) = trim_range(&v, a + 5, b);
            let mut h = ra;
            while h < rb && v[h] == '#'
                invariant
                    ra <= h <= rb <= v@.len(),
                    forall|j: int| ra <= j < h ==> #[trigger] v@[j] == '#',
                decreases rb - h,
            {
                h = h + 1;
            }
            proof {
                let r = v@.subrange(ra as int, rb as int);
                let k = h - ra;
                assert forall|j: int| 0 <= j < k implies #[trigger] r[j] == '#' by {
                    assert(r[j] == v@[j + ra]);
                }
                if k < r.len() {
                    assert(r[k] == v@[h as int]);
                }
                lemma_strip_hashes_skip(r, k);
                assert(r.skip(k) =~= v@.subrange(h as int, rb as int));
            }
            let (xa, xb) = trim_range(&v, h, rb);
            if xa == xb {
                return Command::DelUsage;
            }
            return match parse_i64(&v, xa, xb) {
                Some(id) => if id > 0 {
                    Command::Delete(id)
                } else {
                    Command::DelBadId
                },
                None => Command::DelBadId,
            };
        }
    }
    let s = input.substring_char(a, b).to_owned();
    Command::Insert(s)
}

// --- Laws -------------------------------------------------------------

/// `/dev on` and `/dev off` are recognised in both modes, with any
/// whitespace around them.
pub proof fn lemma_dev_toggle_always_recognised(w1: Seq<char>, w2: Seq<char>, dev_mode: bool)
    requires
        all_white_space(w1),
        all_white_space(w2),
    ensures
        parse_spec(w1 + "/dev on"@ + w2, dev_mode) == CommandView::DevOn,
        parse_spec(w1 + "/dev off"@ + w2, dev_mode) == CommandView::DevOff,
{
    lemma_trim_surrounding_ws(w1, "/dev on"@, w2);
    lemma_trim_surrounding_ws(w1, "/dev off"@, w2);
    reveal_strlit("/dev on");
    reveal_strlit("/dev off");
    let s1 = "/dev on"@;
    let s2 = "/dev off"@;
    assert(trim(s1) == s1) by {
        lemma_trim_of_unpadded(s1);
    }
    assert(trim(s2) == s2) by {
        lemma_trim_of_unpadded(s2);
    }
}

/// Surrounding whitespace never changes what an input means.
pub proof fn lemma_parse_ignores_surrounding_ws(
    w1: Seq<char>,
    s: Seq<char>,
    w2: Seq<char>,
    dev_mode: bool,
)
    requires
        all_white_space(w1),
        all_white_space(w2),
    ensures
        parse_spec(w1 + s + w2, dev_mode) == parse_spec(s, dev_mode),
{
    lemma_trim_surrounding_ws(w1, s, w2);
}

/// Outside dev mode no input is treated as a deletion command: `/del ...`
/// is saved as an ordinary entry.
pub proof fn lemma_normal_mode_never_deletes(input: Seq<char>)
    ensures
        !(parse_spec(input, false) is Delete),
        !(parse_spec(input, false) is DelUsage),
        !(parse_spec(input, false) is DelBadId),
{
}

/// Only `/del` inputs depend on the mode: every other input means the same
/// in normal and dev mode.
pub proof fn lemma_mode_matters_only_for_del(input: Seq<char>)
    requires
        trim(input) != "/del"@,
        !has_prefix(trim(input), "/del "@),
    ensures
        parse_spec(input, true) == parse_spec(input, false),
{
}

/// The argument part of `/del <arg>` when `arg` is the decimal of `n`,
/// optionally after a `#`: it reads back as `n`.
proof fn lemma_del_argument_of_decimal(n: nat, hash: bool)
    requires
        0 < n <= i64::MAX,
    ensures
        ({
            let arg = if hash {
                seq!['#'] + decimal(n)
            } else {
                decimal(n)
            };
            del_command(arg) == CommandView::Delete(n as int)
        }),
{
    let d = decimal(n);
    lemma_decimal_digits(n);
    lemma_parse_decimal(n);
    assert(is_ascii_digit(d[0]) && is_ascii_digit(d.last()));
    assert(d.last() == d[d.len() - 1]);
    lemma_trim_of_unpadded(d);
    assert(strip_hashes(d) == d);
    if hash {
        let a = seq!['#'] + d;
        assert(a[0] == '#' && a.last() == d.last());
        lemma_trim_of_unpadded(a);
        assert(a.drop_first() =~= d);
        assert(strip_hashes(a) == strip_hashes(d));
    }
}

/// In dev mode, `/del ` followed by the decimal of a positive id, or by its
/// `#` label, deletes that id.
pub proof fn lemma_del_of_label_deletes(id: int)
    requires
        0 < id <= i64::MAX,
    ensures
        parse_spec("/del "@ + decimal(id as nat), true) == CommandView::Delete(id),
        parse_spec("/del "@ + seq!['#'] + signed_decimal(id), true) == CommandView::Delete(id),
{
    reveal_strlit("/del ");
    reveal_strlit("/del");
    reveal_strlit("/dev on");
    reveal_strlit("/dev off");
    reveal_strlit("/search");
    reveal_strlit("/search ");
    let n = id as nat;
    let d = decimal(n);
    lemma_decimal_digits(n);
    assert(is_ascii_digit(d.last()));
    let p = "/del "@;
    let args = seq![d, seq!['#'] + d];
    assert forall|i: int| 0 <= i < 2 implies parse_spec(p + #[trigger] args[i], true)
        == CommandView::Delete(id) by {
        let a = args[i];
        let t = p + a;
        assert(a.len() >= 1);
        assert(a.last() == d.last());
        assert(t[0] == '/' && t.last() == a.last());
        lemma_trim_of_unpadded(t);
        assert(t[1] == 'd' && t[3] == 'l');
        assert(t != "/dev on"@);
        assert(t != "/dev off"@);
        assert(t != "/search"@);
        assert(!has_prefix(t, "/search "@)) by {
            if has_prefix(t, "/search "@) {
                assert(t.take(8)[1] == t[1]);
                assert("/search "@[1] == 's');
            }
        }
        assert(t.len() > 5);
        assert(t != "/del"@);
        assert(t.take(5) =~= p);
        assert(t.skip(5) =~= a);
        lemma_del_argument_of_decimal(n, i == 1);
    }
    assert(args[0] == d);
    assert(args[1] == seq!['#'] + d);
    assert(signed_decimal(id) == d);
    assert("/del "@ + seq!['#'] + d =~= p + (seq!['#'] + d));
}

/// A deletion always names a positive ID.
pub proof fn lemma_delete_id_positive(input: Seq<char>, dev_mode: bool)
    ensures
        parse_spec(input, dev_mode) matches CommandView::Delete(id) ==> id > 0,
{
}

/// Saved texts and search queries carry no surrounding whitespace, and a
/// search query is never empty.
pub proof fn lemma_payloads_are_trimmed(input: Seq<char>, dev_mode: bool)
    ensures
        parse_spec(input, dev_mode) matches CommandView::Insert(t) ==> t == trim(t),
        parse_spec(input, dev_mode) matches CommandView::Search(q) ==> q.len() > 0 && q == trim(
            q,
        ),
{
    lemma_trim_idempotent(input);
    let t = trim(input);
    if has_prefix(t, "/search "@) {
        lemma_trim_idempotent(t.skip("/search "@.len() as int));
    }
}

} // verus!
