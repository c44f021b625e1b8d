//! Times written as `H:MM:SS`, and the users a track is scrobbled for.

use vstd::prelude::*;
use vstd::arithmetic::div_mod::lemma_mod_mod;

use crate::persistence::entities::user::User;

use crate::text::{
    char_views, chars_of, decimal, lemma_decimal, lemma_parse_numeral,
    lemma_split_no_sep, lemma_split_then, lemma_two_digits, parse_u64, parse_u64_spec,
    push_decimal, push_two_digits, split_chars, split_on, string_from_chars, two_digits,
};

verus! {

/// The seconds of a day.
pub const SECONDS_PER_DAY: u64 = 86400;

/// The `H:MM:SS` text of a length of time given in seconds, wrapped to one day:
/// hours without padding, minutes and seconds padded to two digits.
pub open spec fn clock_text(secs: nat) -> Seq<char> {
    let s = secs % 86400;
    decimal(s / 3600) + seq![':'] + two_digits((s % 3600) / 60) + seq![':'] + two_digits(s % 60)
}

/// Whether every piece reads as a `u64`.
pub open spec fn all_pieces_parse(pieces: Seq<Seq<char>>) -> bool {
    forall|i: int| 0 <= i < pieces.len() ==> (#[trigger] parse_u64_spec(pieces[i])) is Some
}

/// The numbers that the pieces read as.
pub open spec fn piece_values(pieces: Seq<Seq<char>>) -> Seq<u64> {
    Seq::new(pieces.len(), |i: int| parse_u64_spec(pieces[i]).unwrap())
}

/// Seconds of `H:M:S`, `M:S` or `S`; any other count of fields gives zero.
pub open spec fn clock_seconds(v: Seq<u64>) -> int {
    if v.len() == 3 {
        v[2] + v[0] * 3600 + v[1] * 60
    } else if v.len() == 2 {
        v[1] + v[0] * 60
    } else if v.len() == 1 {
        v[0] as int
    } else {
        0
    }
}

/// The seconds that a time text stands for, or `None` where a field between colons does not
/// read as a `u64` or the total does not fit in one.
pub open spec fn time_seconds(time: Seq<char>) -> Option<u64> {
    let pieces = split_on(time, ':');
    if all_pieces_parse(pieces) && clock_seconds(piece_values(pieces)) <= u64::MAX {
        Some(clock_seconds(piece_values(pieces)) as u64)
    } else {
        None
    }
}

/// Renders a length of time in seconds as `H:MM:SS`, after wrapping it to one day.
pub fn duration_to_time(duration: u64) -> (text: String)
    ensures
        text@ == clock_text(duration as nat),
{
    let day_secs = duration % SECONDS_PER_DAY;
    let hours = day_secs / 3600;
    let hour_secs = day_secs % 3600;
    let mins = hour_secs / 60;
    let secs = hour_secs % 60;
    proof {
        lemma_mod_mod(day_secs as int, 60, 60);
    }
    assert(secs == day_secs % 60);
    let mut out: Vec<char> = Vec::new();
    push_decimal(&mut out, hours);
    out.push(':');
    push_two_digits(&mut out, mins);
    out.push(':');
    push_two_digits(&mut out, secs);
    assert(out@ =~= clock_text(duration as nat));
    string_from_chars(&out)
}

/// Reads a time given as `H:M:S`, `M:S` or `S` into seconds; `None` where a field does not read
/// as a `u64` or the total overflows.
pub fn parse_time(time: &str) -> (secs: Option<u64>)
    ensures
        secs == time_seconds(time@),
{
    let chars = chars_of(time);
    let pieces = split_chars(&chars, ':');
    let ghost spec_pieces = split_on(time@, ':');
    let mut values: Vec<u64> = Vec::new();
    let mut i: usize = 0;
    while i < pieces.len()
        invariant
            i <= pieces.len(),
            char_views(pieces@) == spec_pieces,
            spec_pieces == split_on(time@, ':'),
            values@.len() == i,
            forall|j: int| 0 <= j < i ==> (#[trigger] parse_u64_spec(spec_pieces[j])) is Some,
            forall|j: int| 0 <= j < i ==> values@[j] == #[trigger] parse_u64_spec(spec_pieces[j]).unwrap(),
        decreases pieces.len() - i,
    {
        assert(char_views(pieces@)[i as int] == pieces@[i as int]@);
        match parse_u64(&pieces[i]) {
            Some(v) => {
                values.push(v);
            },
            None => {
                assert(parse_u64_spec(spec_pieces[i as int]) is None);
                assert(!all_pieces_parse(spec_pieces));
                return None;
            },
        }
        i += 1;
    }
    assert(values@ =~= piece_values(spec_pieces));
    let total: u128 = if values.len() == 3 {
        values[2] as u128 + values[0] as u128 * 3600 + values[1] as u128 * 60
    } else if values.len() == 2 {
        values[1] as u128 + values[0] as u128 * 60
    } else if values.len() == 1 {
        values[0] as u128
    } else {
        0
    };
    assert(total == clock_seconds(values@));
    if total > u64::MAX as u128 {
        None
    } else {
        Some(total as u64)
    }
}

/// Reads a time given as `H:M:S`, `M:S` or `S` into seconds. Every field must read as a `u64`
/// and the total must fit in one.
pub fn time_to_duration(time: &String) -> (secs: u64)
    requires
        time_seconds(time@) is Some,
    ensures
        secs == time_seconds(time@).unwrap(),
{
    match parse_time(time.as_str()) {
        Some(secs) => secs,
        None => 0,
    }
}

/// Reading back the text of a time gives the time of day it was made from.
pub proof fn law_time_round_trip(secs: nat)
    ensures
        time_seconds(clock_text(secs)) == Some((secs % 86400) as u64),
{
    let s = secs % 86400;
    let h = s / 3600;
    let m = (s % 3600) / 60;
    let sec = s % 60;
    lemma_decimal(h);
    lemma_two_digits(m);
    lemma_two_digits(sec);
    let a = decimal(h);
    let b = two_digits(m);
    let c = two_digits(sec);
    lemma_split_no_sep(a, ':');
    lemma_split_then(a, ':', b);
    lemma_split_then(a.push(':') + b, ':', c);
    assert(clock_text(secs) =~= (a.push(':') + b).push(':') + c);
    let pieces = split_on(clock_text(secs), ':');
    assert(pieces =~= seq![a, b, c]);
    lemma_parse_numeral(a);
    lemma_parse_numeral(b);
    lemma_parse_numeral(c);
    assert(all_pieces_parse(pieces));
    let v = piece_values(pieces);
    assert(v[0] == h && v[1] == m && v[2] == sec);
    assert(h * 3600 + m * 60 + sec == s);
}

/// The users among the looked-up channel members who linked a Last.fm account, in order.
pub open spec fn linked_spec(users: Seq<Option<User>>) -> Seq<(i64, Seq<char>)>
    decreases users.len(),
{
    if users.len() == 0 {
        Seq::empty()
    } else {
        let rest = linked_spec(users.drop_last());
        match users.last() {
            Some(u) => rest.push((u.id, u.token@)),
            None => rest,
        }
    }
}

/// The ids and session keys of a list of users.
pub open spec fn user_keys(users: Seq<User>) -> Seq<(i64, Seq<char>)> {
    users.map_values(|u: User| (u.id, u.token@))
}

/// The users to scrobble for: the members found among the linked Last.fm accounts, in order.
pub fn linked_users(users: &Vec<Option<User>>) -> (linked: Vec<User>)
    ensures
        user_keys(linked@) == linked_spec(users@),
        ({
            let found = users@.filter(|o: Option<User>| o is Some);
            &&& linked@.len() == found.len()
            &&& forall|j: int| 0 <= j < found.len() ==>
                (#[trigger] linked@[j]).id == found[j]->0.id && linked@[j].token@ == found[j]->0.token@
        }),
{
    let mut linked: Vec<User> = Vec::new();
    let mut i: usize = 0;
    while i < users.len()
        invariant
            i <= users.len(),
            user_keys(linked@) == linked_spec(users@.take(i as int)),
        decreases users.len() - i,
    {
        let ghost prev = linked@;
        assert(users@.take(i + 1).drop_last() =~= users@.take(i as int));
        assert(users@.take(i + 1).last() == users@[i as int]);
        match &users[i] {
            Some(u) => {
                linked.push(User { id: u.id, token: u.token.clone() });
                assert(user_keys(linked@) =~= user_keys(prev).push((u.id, u.token@)));
            },
            None => {},
        }
        i += 1;
    }
    assert(users@.take(users.len() as int) =~= users@);
    proof {
        law_linked_users_are_the_found_ones(users@);
        assert forall|j: int| 0 <= j < linked@.len() implies user_keys(linked@)[j] == ((#[trigger] linked@[j]).id, linked@[j].token@) by {}
    }
    linked
}

/// The users scrobbled for are exactly the members found among the linked accounts, each one
/// once, in the members' order: the `Some` entries of the lookups, wherever they stand.
pub proof fn law_linked_users_are_the_found_ones(users: Seq<Option<User>>)
    ensures
        ({
            let found = users.filter(|o: Option<User>| o is Some);
            let linked = linked_spec(users);
            &&& linked.len() == found.len()
            &&& forall|j: int| 0 <= j < found.len() ==>
                #[trigger] linked[j] == (found[j]->0.id, found[j]->0.token@)
        }),
    decreases users.len(),
{
    reveal(Seq::filter);
    if users.len() > 0 {
        law_linked_users_are_the_found_ones(users.drop_last());
    }
}

/// A time reads field by field: one field is seconds, two are minutes and seconds, three are
/// hours, minutes and seconds; the time is refused exactly when the total does not fit in a
/// `u64`.
pub proof fn law_time_fields(x: Seq<char>, y: Seq<char>, z: Seq<char>, h: u64, m: u64, sec: u64)
    requires
        !x.contains(':'),
        !y.contains(':'),
        !z.contains(':'),
        parse_u64_spec(x) == Some(h),
        parse_u64_spec(y) == Some(m),
        parse_u64_spec(z) == Some(sec),
    ensures
        time_seconds(z) == Some(sec),
        time_seconds(y.push(':') + z) == (if m * 60 + sec <= u64::MAX { Some((m * 60 + sec) as u64) } else { None::<u64> }),
        time_seconds((x.push(':') + y).push(':') + z) == (if h * 3600 + m * 60 + sec <= u64::MAX {
            Some((h * 3600 + m * 60 + sec) as u64)
        } else {
            None::<u64>
        }),
{
    lemma_split_no_sep(z, ':');
    let one = split_on(z, ':');
    assert(one =~= seq![z]);
    assert(piece_values(one)[0] == sec);
    lemma_split_no_sep(y, ':');
    lemma_split_then(y, ':', z);
    let two = split_on(y.push(':') + z, ':');
    assert(two =~= seq![y, z]);
    assert(piece_values(two)[0] == m && piece_values(two)[1] == sec);
    lemma_split_no_sep(x, ':');
    lemma_split_then(x, ':', y);
    lemma_split_then(x.push(':') + y, ':', z);
    let three = split_on((x.push(':') + y).push(':') + z, ':');
    assert(three =~= seq![x, y, z]);
    assert(piece_values(three)[0] == h && piece_values(three)[1] == m && piece_values(three)[2] == sec);
    assert(all_pieces_parse(one));
    assert(all_pieces_parse(two));
    assert(all_pieces_parse(three));
}

} // verus!
