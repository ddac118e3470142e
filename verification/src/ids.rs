use std::collections::HashSet;
use vstd::prelude::*;
use vstd::string::StringExecFns;
use crate::text::{all_digits, lemma_digits_value_nonneg, digits_value, chars_of, decimal, decimal_i32, digit_char, digits_up_to, is_digit, is_digit_char, lemma_decimal, lemma_parse_decimal_i32, parse_i32, parse_i64};

verus! {

broadcast use {vstd::std_specs::hash::group_hash_axioms, vstd::seq_lib::group_seq_properties};

/// The pieces of `s` between the separators `sep`, as `str::split` gives them: one more
/// piece than there are separators, empty pieces included.
pub open spec fn split_on(s: Seq<char>, sep: char) -> Seq<Seq<char>>
    decreases s.len(),
{
    if s.len() == 0 {
        seq![Seq::empty()]
    } else {
        let p = split_on(s.drop_last(), sep);
        if s.last() == sep {
            p.push(Seq::empty())
        } else {
            p.update(p.len() - 1, p.last().push(s.last()))
        }
    }
}

/// The pieces written one after another with `sep` between each two.
pub open spec fn join_with(parts: Seq<Seq<char>>, sep: Seq<char>) -> Seq<char>
    decreases parts.len(),
{
    if parts.len() == 0 {
        Seq::empty()
    } else if parts.len() == 1 {
        parts[0]
    } else {
        join_with(parts.drop_last(), sep) + sep + parts.last()
    }
}

/// Every piece parsed as an `i32`, or `None` if one of them is not one.
pub open spec fn parse_all(pieces: Seq<Seq<char>>) -> Option<Seq<i32>>
    decreases pieces.len(),
{
    if pieces.len() == 0 {
        Some(Seq::empty())
    } else {
        match (parse_all(pieces.drop_last()), parse_i32(pieces.last())) {
            (Some(v), Some(x)) => Some(v.push(x)),
            _ => None,
        }
    }
}

/// The text with one final newline left out.
pub open spec fn without_final_newline(s: Seq<char>) -> Seq<char> {
    if s.len() > 0 && s.last() == '\n' {
        s.drop_last()
    } else {
        s
    }
}

/// The text with every newline written as a comma.
pub open spec fn newlines_as_commas(s: Seq<char>) -> Seq<char> {
    s.map_values(|c: char| if c == '\n' { ',' } else { c })
}

/// A list whose ids are separated by commas or newlines, written with commas only: a
/// final newline is left out and every other newline becomes a comma.
pub open spec fn comma_text(s: Seq<char>) -> Seq<char> {
    newlines_as_commas(without_final_newline(s))
}

/// The log ids of a list separated by commas or newlines (one final newline allowed),
/// if every piece is one.
pub open spec fn parse_log_ids(s: Seq<char>) -> Option<Seq<i32>> {
    parse_all(split_on(comma_text(s), ','))
}

/// The decimal text of each id.
pub open spec fn id_texts(ids: Seq<i32>) -> Seq<Seq<char>> {
    ids.map_values(|n: i32| decimal_i32(n))
}

/// The log ids written as a comma-separated list.
pub open spec fn format_log_ids(ids: Seq<i32>) -> Seq<char> {
    join_with(id_texts(ids), seq![','])
}

pub proof fn lemma_split_nonempty(s: Seq<char>, sep: char)
    ensures
        split_on(s, sep).len() >= 1,
    decreases s.len(),
{
    if s.len() > 0 {
        lemma_split_nonempty(s.drop_last(), sep);
    }
}

/// Text without a separator extends the last piece.
pub proof fn lemma_split_extend(x: Seq<char>, y: Seq<char>, sep: char)
    requires
        !y.contains(sep),
    ensures
        ({
            let p = split_on(x, sep);
            split_on(x + y, sep) == p.update(p.len() - 1, p.last() + y)
        }),
    decreases y.len(),
{
    lemma_split_nonempty(x, sep);
    let p = split_on(x, sep);
    if y.len() == 0 {
        assert(x + y =~= x);
        assert(p.last() + y =~= p.last());
        assert(p.update(p.len() - 1, p.last() + y) =~= p);
    } else {
        let y0 = y.drop_last();
        assert(!y0.contains(sep)) by {
            if y0.contains(sep) {
                let i = y0.index_of(sep);
                assert(y[i] == sep);
            }
        }
        lemma_split_extend(x, y0, sep);
        assert((x + y).drop_last() =~= x + y0);
        assert((x + y).last() == y.last());
        assert(y.last() != sep) by {
            assert(y[y.len() - 1] == y.last());
        }
        lemma_split_nonempty(x + y0, sep);
        let q = split_on(x + y0, sep);
        assert(q =~= p.update(p.len() - 1, p.last() + y0));
        assert(q.last() == p.last() + y0);
        assert(p.last() + y0 + seq![y.last()] =~= p.last() + y);
        assert(q.last().push(y.last()) =~= p.last() + y);
        assert(q.update(q.len() - 1, q.last().push(y.last())) =~= p.update(p.len() - 1, p.last() + y));
    }
}

/// Splitting after a separator: the pieces before it, then the pieces after.
pub proof fn lemma_split_concat(x: Seq<char>, y: Seq<char>, sep: char)
    ensures
        split_on(x.push(sep) + y, sep) == split_on(x, sep) + split_on(y, sep),
    decreases y.len(),
{
    lemma_split_nonempty(x, sep);
    if y.len() == 0 {
        assert(x.push(sep) + y =~= x.push(sep));
        assert(x.push(sep).drop_last() =~= x);
        assert(split_on(x, sep) + split_on(y, sep) =~= split_on(x, sep).push(Seq::empty()));
    } else {
        let y0 = y.drop_last();
        lemma_split_concat(x, y0, sep);
        lemma_split_nonempty(y0, sep);
        assert((x.push(sep) + y).drop_last() =~= x.push(sep) + y0);
        assert((x.push(sep) + y).last() == y.last());
        let a = split_on(x, sep);
        let b = split_on(y0, sep);
        if y.last() == sep {
            assert((a + b).push(Seq::empty()) =~= a + b.push(Seq::empty()));
        } else {
            assert((a + b).update((a + b).len() - 1, (a + b).last().push(y.last())) =~= a + b.update(
                b.len() - 1,
                b.last().push(y.last()),
            ));
        }
    }
}

/// Splitting what `join_with` wrote gives the pieces back, when no piece holds the
/// separator and there is at least one piece.
pub proof fn lemma_split_join(parts: Seq<Seq<char>>, sep: char)
    requires
        parts.len() >= 1,
        forall|i: int| 0 <= i < parts.len() ==> !(#[trigger] parts[i]).contains(sep),
    ensures
        split_on(join_with(parts, seq![sep]), sep) == parts,
    decreases parts.len(),
{
    if parts.len() == 1 {
        lemma_split_extend(Seq::empty(), parts[0], sep);
        assert(Seq::<char>::empty() + parts[0] =~= parts[0]);
        assert(split_on(Seq::<char>::empty(), sep) == seq![Seq::<char>::empty()]);
        assert(seq![Seq::<char>::empty()].update(0, Seq::<char>::empty() + parts[0]) =~= parts);
    } else {
        let init = parts.drop_last();
        assert forall|i: int| 0 <= i < init.len() implies !(#[trigger] init[i]).contains(sep) by {
            assert(init[i] == parts[i]);
        }
        lemma_split_join(init, sep);
        let j = join_with(init, seq![sep]);
        assert(j + seq![sep] =~= j.push(sep));
        lemma_split_concat(j, Seq::empty(), sep);
        assert(j.push(sep) + Seq::<char>::empty() =~= j.push(sep));
        assert(!parts.last().contains(sep)) by {
            assert(parts.last() == parts[parts.len() - 1]);
        }
        lemma_split_extend(j.push(sep), parts.last(), sep);
        let p = split_on(j.push(sep), sep);
        assert(split_on(Seq::<char>::empty(), sep) == seq![Seq::<char>::empty()]);
        assert(p =~= init.push(Seq::empty()));
        assert(Seq::<char>::empty() + parts.last() =~= parts.last());
        assert(p.update(p.len() - 1, p.last() + parts.last()) =~= parts);
    }
}

pub proof fn lemma_parse_all_concat(a: Seq<Seq<char>>, b: Seq<Seq<char>>)
    ensures
        parse_all(a) is None ==> parse_all(a + b) is None,
        parse_all(a) is Some && parse_all(b) is Some ==> parse_all(a + b) == Some(
            parse_all(a)->0 + parse_all(b)->0,
        ),
        parse_all(a) is Some && parse_all(b) is None ==> parse_all(a + b) is None,
    decreases b.len(),
{
    if b.len() == 0 {
        assert(a + b =~= a);
        if parse_all(a) is Some {
            assert(parse_all(a)->0 + parse_all(b)->0 =~= parse_all(a)->0);
        }
    } else {
        lemma_parse_all_concat(a, b.drop_last());
        assert((a + b).drop_last() =~= a + b.drop_last());
        assert((a + b).last() == b.last());
        if parse_all(a) is Some && parse_all(b) is Some {
            let va = parse_all(a)->0;
            let vb0 = parse_all(b.drop_last())->0;
            assert((va + vb0).push(parse_i32(b.last())->0) =~= va + vb0.push(parse_i32(b.last())->0));
        }
    }
}

/// The decimal text of an `i32` holds only digits and a leading minus sign.
proof fn lemma_decimal_i32_lacks(n: i32, c: char)
    requires
        !is_digit(c),
        c != '-',
    ensures
        !decimal_i32(n).contains(c),
{
    let t = decimal_i32(n);
    if n < 0 {
        lemma_decimal((-n) as nat);
    } else {
        lemma_decimal(n as nat);
    }
    if t.contains(c) {
        let k = t.index_of(c);
        if n < 0 {
            if k > 0 {
                assert(t[k] == decimal((-n) as nat)[k - 1]);
                assert(is_digit(decimal((-n) as nat)[k - 1]));
            }
        } else {
            assert(is_digit(decimal(n as nat)[k]));
        }
    }
}

/// Text joined from pieces and a separator that lack `c` lacks `c`.
proof fn lemma_join_lacks(parts: Seq<Seq<char>>, sep: Seq<char>, c: char)
    requires
        !sep.contains(c),
        forall|i: int| 0 <= i < parts.len() ==> !(#[trigger] parts[i]).contains(c),
    ensures
        !join_with(parts, sep).contains(c),
    decreases parts.len(),
{
    if parts.len() == 1 {
        assert(!parts[0].contains(c));
    } else if parts.len() > 1 {
        let init = parts.drop_last();
        assert forall|i: int| 0 <= i < init.len() implies !(#[trigger] init[i]).contains(c) by {
            assert(init[i] == parts[i]);
        }
        lemma_join_lacks(init, sep, c);
        let j = join_with(init, sep);
        let l = parts.last();
        assert(!l.contains(c)) by {
            assert(l == parts[parts.len() - 1]);
        }
        let all = j + sep + l;
        if all.contains(c) {
            let k = all.index_of(c);
            if k < j.len() {
                assert(all[k] == j[k]);
            } else if k < j.len() + sep.len() {
                assert(all[k] == sep[k - j.len()]);
            } else {
                assert(all[k] == l[k - j.len() - sep.len()]);
            }
        }
    }
}

/// Newlines turned into commas in text that joins newline-free pieces with newlines
/// give the same pieces joined with commas.
proof fn lemma_join_newlines_as_commas(parts: Seq<Seq<char>>)
    requires
        forall|i: int| 0 <= i < parts.len() ==> !(#[trigger] parts[i]).contains('\n'),
    ensures
        newlines_as_commas(join_with(parts, seq!['\n'])) == join_with(parts, seq![',']),
    decreases parts.len(),
{
    if parts.len() == 1 {
        assert(!parts[0].contains('\n'));
        assert forall|k: int| 0 <= k < parts[0].len() implies parts[0][k] != '\n' by {
            if parts[0][k] == '\n' {
                assert(parts[0].contains('\n'));
            }
        }
        assert(newlines_as_commas(parts[0]) =~= parts[0]);
    } else if parts.len() > 1 {
        let init = parts.drop_last();
        assert forall|i: int| 0 <= i < init.len() implies !(#[trigger] init[i]).contains('\n') by {
            assert(init[i] == parts[i]);
        }
        lemma_join_newlines_as_commas(init);
        let l = parts.last();
        assert(!l.contains('\n')) by {
            assert(l == parts[parts.len() - 1]);
        }
        assert forall|k: int| 0 <= k < l.len() implies l[k] != '\n' by {
            if l[k] == '\n' {
                assert(l.contains('\n'));
            }
        }
        let jn = join_with(init, seq!['\n']);
        let jc = join_with(init, seq![',']);
        assert(newlines_as_commas(jn + seq!['\n'] + l) =~= newlines_as_commas(jn) + seq![','] + l);
        assert(jc + seq![','] + l == join_with(parts, seq![',']));
    } else {
        assert(newlines_as_commas(join_with(parts, seq!['\n'])) =~= Seq::<char>::empty());
    }
}

/// The decimal texts of the ids, which hold no comma and no newline.
proof fn lemma_id_texts_plain(ids: Seq<i32>)
    ensures
        forall|i: int| 0 <= i < ids.len() ==> !(#[trigger] id_texts(ids)[i]).contains(',') && !id_texts(ids)[i].contains('\n'),
{
    assert forall|i: int| 0 <= i < ids.len() implies !(#[trigger] id_texts(ids)[i]).contains(',')
        && !id_texts(ids)[i].contains('\n') by {
        lemma_decimal_i32_lacks(ids[i], ',');
        lemma_decimal_i32_lacks(ids[i], '\n');
    }
}

/// Reading back a written list of log ids gives the same ids in the same order.
pub proof fn lemma_log_ids_round_trip(ids: Seq<i32>)
    requires
        ids.len() >= 1,
    ensures
        parse_log_ids(format_log_ids(ids)) == Some(ids),
        comma_text(format_log_ids(ids)) == format_log_ids(ids),
{
    let parts = ids.map_values(|n: i32| decimal_i32(n));
    let t = format_log_ids(ids);
    lemma_id_texts_plain(ids);
    lemma_join_lacks(parts, seq![','], '\n');
    assert forall|k: int| 0 <= k < t.len() implies t[k] != '\n' by {
        if t[k] == '\n' {
            assert(t.contains('\n'));
        }
    }
    if t.len() > 0 {
        assert(t.last() == t[t.len() - 1]);
    }
    assert(comma_text(t) =~= t);
    lemma_split_join(parts, ',');
    lemma_parse_all_map(ids);
}

proof fn lemma_decimal_i32_nonempty(n: i32)
    ensures
        decimal_i32(n).len() >= 1,
{
    if n < 0 {
        lemma_decimal((-n) as nat);
    } else {
        lemma_decimal(n as nat);
    }
}

/// Joined text ends as its last piece ends, when that piece is not empty.
proof fn lemma_join_last(parts: Seq<Seq<char>>, sep: Seq<char>)
    requires
        parts.len() >= 1,
        parts.last().len() >= 1,
    ensures
        join_with(parts, sep).len() >= 1,
        join_with(parts, sep).last() == parts.last().last(),
{
    if parts.len() == 1 {
        assert(parts.last() == parts[0]);
    } else {
        let j = join_with(parts.drop_last(), sep);
        let all = j + sep + parts.last();
        assert(all.last() == all[all.len() - 1]);
        assert(all[all.len() - 1] == parts.last()[parts.last().len() - 1]);
    }
}

/// Log ids written one per line, with or without a final newline, read back as the same
/// ids as the comma-separated list: the two separators read alike.
pub proof fn lemma_newline_list_reads(ids: Seq<i32>)
    requires
        ids.len() >= 1,
    ensures
        parse_log_ids(join_with(id_texts(ids), seq!['\n'])) == Some(ids),
        parse_log_ids(join_with(id_texts(ids), seq!['\n']).push('\n')) == Some(ids),
{
    let parts = ids.map_values(|n: i32| decimal_i32(n));
    let t = join_with(parts, seq!['\n']);
    lemma_id_texts_plain(ids);
    lemma_join_newlines_as_commas(parts);
    lemma_log_ids_round_trip(ids);
    assert(t.push('\n').drop_last() =~= t);
    assert(without_final_newline(t.push('\n')) == t);
    let l = parts.last();
    assert(l == parts[parts.len() - 1]);
    assert(l == decimal_i32(ids.last()));
    lemma_decimal_i32_nonempty(ids.last());
    lemma_join_last(parts, seq!['\n']);
    assert(!l.contains('\n'));
    assert(l.last() != '\n') by {
        assert(l[l.len() - 1] == l.last());
    }
    assert(without_final_newline(t) == t);
    assert(comma_text(t) == format_log_ids(ids));
    assert(comma_text(t.push('\n')) == format_log_ids(ids));
}

proof fn lemma_parse_all_map(ids: Seq<i32>)
    ensures
        parse_all(ids.map_values(|n: i32| decimal_i32(n))) == Some(ids),
    decreases ids.len(),
{
    let parts = ids.map_values(|n: i32| decimal_i32(n));
    if ids.len() > 0 {
        lemma_parse_all_map(ids.drop_last());
        assert(parts.drop_last() =~= ids.drop_last().map_values(|n: i32| decimal_i32(n)));
        lemma_parse_decimal_i32(ids.last());
        assert(ids.drop_last().push(ids.last()) =~= ids);
    } else {
        assert(ids =~= Seq::<i32>::empty());
    }
}

/// Whether `chars[start..end]` are all decimal digits.
pub fn all_digits_in(chars: &Vec<char>, start: usize, end: usize) -> (b: bool)
    requires
        start <= end <= chars@.len(),
    ensures
        b == all_digits(chars@.subrange(start as int, end as int)),
{
    let ghost s = chars@.subrange(start as int, end as int);
    let mut i = start;
    while i < end
        invariant
            start <= i <= end <= chars@.len(),
            s == chars@.subrange(start as int, end as int),
            forall|j: int| 0 <= j < i - start ==> #[trigger] is_digit(s[j]),
        decreases end - i,
    {
        if !is_digit_char(chars[i]) {
            assert(s[i - start] == chars@[i as int]);
            return false;
        }
        i = i + 1;
    }
    true
}

/// `str::parse::<i32>` of `chars[start..end]`.
pub fn parse_i32_at(chars: &Vec<char>, start: usize, end: usize) -> (r: Option<i32>)
    requires
        start <= end <= chars@.len(),
    ensures
        r == parse_i32(chars@.subrange(start as int, end as int)),
{
    let ghost s = chars@.subrange(start as int, end as int);
    if start == end {
        return None;
    }
    let c = chars[start];
    assert(c == s[0]);
    if c == '+' || c == '-' {
        assert(s.drop_first() =~= chars@.subrange(start + 1, end as int));
        if start + 1 == end {
            return None;
        }
        if !all_digits_in(chars, start + 1, end) {
            return None;
        }
        proof { lemma_digits_value_nonneg(s.drop_first()); }
        if c == '-' {
            match digits_up_to(chars, start + 1, end, 2147483648) {
                Some(m) => Some((0 - m as i64) as i32),
                None => None,
            }
        } else {
            match digits_up_to(chars, start + 1, end, 2147483647) {
                Some(m) => Some(m as i32),
                None => None,
            }
        }
    } else {
        if !all_digits_in(chars, start, end) {
            return None;
        }
        proof { lemma_digits_value_nonneg(s); }
        match digits_up_to(chars, start, end, 2147483647) {
            Some(m) => Some(m as i32),
            None => None,
        }
    }
}

/// `str::parse::<i64>` of `chars[start..end]`.
pub fn parse_i64_at(chars: &Vec<char>, start: usize, end: usize) -> (r: Option<i64>)
    requires
        start <= end <= chars@.len(),
    ensures
        r == parse_i64(chars@.subrange(start as int, end as int)),
{
    let ghost s = chars@.subrange(start as int, end as int);
    if start == end {
        return None;
    }
    let c = chars[start];
    assert(c == s[0]);
    if c == '+' || c == '-' {
        assert(s.drop_first() =~= chars@.subrange(start + 1, end as int));
        if start + 1 == end {
            return None;
        }
        if !all_digits_in(chars, start + 1, end) {
            return None;
        }
        proof { lemma_digits_value_nonneg(s.drop_first()); }
        if c == '-' {
            match digits_up_to(chars, start + 1, end, 9223372036854775808) {
                Some(m) => {
                    if m == 9223372036854775808 {
                        Some(i64::MIN)
                    } else {
                        Some(0 - m as i64)
                    }
                },
                None => None,
            }
        } else {
            match digits_up_to(chars, start + 1, end, 9223372036854775807) {
                Some(m) => Some(m as i64),
                None => None,
            }
        }
    } else {
        if !all_digits_in(chars, start, end) {
            return None;
        }
        proof { lemma_digits_value_nonneg(s); }
        match digits_up_to(chars, start, end, 9223372036854775807) {
            Some(m) => Some(m as i64),
            None => None,
        }
    }
}

/// The characters of a list with the final newline left out and the other newlines
/// written as commas.
fn comma_chars(contents: &str) -> (v: Vec<char>)
    ensures
        v@ == comma_text(contents@),
{
    let chars = chars_of(contents);
    let mut n = chars.len();
    if n > 0 && chars[n - 1] == '\n' {
        n = n - 1;
    }
    let ghost kept = without_final_newline(chars@);
    assert(kept =~= chars@.take(n as int));
    let mut v: Vec<char> = Vec::new();
    let mut i: usize = 0;
    while i < n
        invariant
            0 <= i <= n <= chars@.len(),
            kept == chars@.take(n as int),
            v@ =~= kept.take(i as int).map_values(|c: char| if c == '\n' { ',' } else { c }),
        decreases n - i,
    {
        let c = chars[i];
        if c == '\n' {
            v.push(',');
        } else {
            v.push(c);
        }
        assert(kept.take(i + 1) =~= kept.take(i as int).push(c));
        i = i + 1;
    }
    assert(kept.take(n as int) =~= kept);
    v
}

/// The log ids of a list separated by commas or newlines (one final newline allowed), or
/// `None` if a piece is not an `i32`.
pub fn read_log_ids(contents: &str) -> (r: Option<Vec<i32>>)
    ensures
        match r {
            Some(v) => parse_log_ids(contents@) == Some(v@),
            None => parse_log_ids(contents@) is None,
        },
{
    read_comma_ids(&comma_chars(contents))
}

/// The ids of a comma-separated list, or `None` if a piece is not an `i32`.
#[verifier::rlimit(50)]
fn read_comma_ids(chars: &Vec<char>) -> (r: Option<Vec<i32>>)
    ensures
        match r {
            Some(v) => parse_all(split_on(chars@, ',')) == Some(v@),
            None => parse_all(split_on(chars@, ',')) is None,
        },
{
    let ghost s = chars@;
    let mut ids: Vec<i32> = Vec::new();
    let ghost mut done: Seq<Seq<char>> = Seq::empty();
    let mut start: usize = 0;
    let mut i: usize = 0;
    assert(s.take(0) =~= Seq::<char>::empty());
    assert(s.subrange(0, 0) =~= Seq::<char>::empty());
    while i < chars.len()
        invariant
            chars@ == s,
            start <= i <= s.len(),
            split_on(s.take(i as int), ',') == done.push(s.subrange(start as int, i as int)),
            parse_all(done) == Some(ids@),
        decreases s.len() - i,
    {
        let c = chars[i];
        assert(s.take(i + 1) =~= s.take(i as int).push(c));
        assert(s.take(i + 1).drop_last() =~= s.take(i as int));
        if c == ',' {
            let ghost piece = s.subrange(start as int, i as int);
            match parse_i32_at(&chars, start, i) {
                Some(x) => {
                    proof {
                        assert(done.push(piece).drop_last() =~= done);
                        done = done.push(piece);
                    }
                    ids.push(x);
                    start = i + 1;
                    assert(s.subrange(start as int, i + 1) =~= Seq::<char>::empty());
                },
                None => {
                    proof {
                        assert(done.push(piece).drop_last() =~= done);
                        assert(parse_all(done.push(piece)) is None);
                        lemma_split_concat(s.take(i as int), s.skip(i + 1), ',');
                        assert(s.take(i as int).push(',') + s.skip(i + 1) =~= s);
                        lemma_parse_all_concat(done.push(piece), split_on(s.skip(i + 1), ','));
                        assert(s.take(s.len() as int) =~= s);
                    }
                    return None;
                },
            }
        } else {
            assert(s.subrange(start as int, i + 1) =~= s.subrange(start as int, i as int).push(c));
        }
        i = i + 1;
    }
    assert(s.take(s.len() as int) =~= s);
    let ghost piece = s.subrange(start as int, s.len() as int);
    assert(done.push(piece).drop_last() =~= done);
    match parse_i32_at(&chars, start, chars.len()) {
        Some(x) => {
            ids.push(x);
            Some(ids)
        },
        None => None,
    }
}

/// One more character at the end of a string.
#[verifier::external_body]
pub(crate) fn push_char(s: &mut String, c: char)
    ensures
        final(s)@ == old(s)@.push(c),
{
    s.push(c);
}

/// The decimal digits of `n`.
pub fn decimal_chars(n: u64) -> (v: Vec<char>)
    ensures
        v@ == decimal(n as nat),
    decreases n,
{
    if n < 10 {
        let mut v = Vec::new();
        v.push((n as u8 + 48u8) as char);
        assert(v@ =~= seq![digit_char(n as int)]);
        v
    } else {
        let mut v = decimal_chars(n / 10);
        v.push(((n % 10) as u8 + 48u8) as char);
        v
    }
}

/// Appends how `n` is displayed.
pub fn push_i32(s: &mut String, n: i32)
    ensures
        final(s)@ == old(s)@ + decimal_i32(n),
{
    let digits = if n < 0 {
        push_char(s, '-');
        decimal_chars((0 - n as i64) as u64)
    } else {
        decimal_chars(n as u64)
    };
    let ghost base = s@;
    let mut i: usize = 0;
    while i < digits.len()
        invariant
            0 <= i <= digits@.len(),
            s@ == base + digits@.take(i as int),
        decreases digits@.len() - i,
    {
        push_char(s, digits[i]);
        assert(digits@.take(i + 1) =~= digits@.take(i as int).push(digits@[i as int]));
        i = i + 1;
    }
    assert(digits@.take(digits@.len() as int) =~= digits@);
    if n < 0 {
        assert(old(s)@.push('-') + digits@ =~= old(s)@ + (seq!['-'] + digits@));
    }
}

/// The ids of a set written as a comma-separated list, in the set's own order.
pub fn format_id_set(set: &HashSet<i32>) -> (s: String)
    ensures
        exists|order: Seq<i32>|
            #![trigger format_log_ids(order)]
            order.no_duplicates() && order.to_set() == set@ && s@ == format_log_ids(order),
{
    let mut out = String::new();
    let mut order: Vec<i32> = Vec::new();
    for x in it: set.iter()
        invariant
            order@ =~= it.seq().take(it.index()).unref(),
            it.index() == it.seq().len() ==> order@ =~= it.seq().unref(),
            it.seq().unref().to_set() == set@,
            it.seq().unref().no_duplicates(),
            out@ == format_log_ids(order@),
    {
        let ghost before = order@;
        if order.len() > 0 {
            push_char(&mut out, ',');
        }
        push_i32(&mut out, *x);
        order.push(*x);
        proof {
            let parts = order@.map_values(|n: i32| decimal_i32(n));
            assert(parts.drop_last() =~= before.map_values(|n: i32| decimal_i32(n)));
            if before.len() > 0 {
                assert(parts.len() > 1);
            } else {
                assert(parts.len() == 1);
                assert(out@ =~= parts[0]);
            }
        }
    }
    out
}

/// `str::parse::<i32>`.
pub fn read_i32(s: &str) -> (r: Option<i32>)
    ensures
        r == parse_i32(s@),
{
    let chars = chars_of(s);
    assert(chars@.subrange(0, chars@.len() as int) =~= chars@);
    parse_i32_at(&chars, 0, chars.len())
}

/// The strings written one after another with `sep` between each two, as
/// `slice::join` and `Itertools::join` write them.
pub fn join_strings(parts: &Vec<String>, sep: &str) -> (s: String)
    ensures
        s@ == join_with(parts.deep_view(), sep@),
{
    let mut out = String::new();
    let mut i: usize = 0;
    while i < parts.len()
        invariant
            0 <= i <= parts@.len(),
            out@ == join_with(parts.deep_view().take(i as int), sep@),
        decreases parts@.len() - i,
    {
        let ghost before = parts.deep_view().take(i as int);
        assert(parts.deep_view().take(i + 1).drop_last() =~= before);
        if i > 0 {
            out.append(sep);
        }
        out.append(parts[i].as_str());
        proof {
            let now = parts.deep_view().take(i + 1);
            if i == 0 {
                assert(out@ =~= now[0]);
            } else {
                assert(out@ =~= join_with(before, sep@) + sep@ + now.last());
            }
        }
        i = i + 1;
    }
    assert(parts.deep_view().take(parts@.len() as int) =~= parts.deep_view());
    out
}

} // verus!
