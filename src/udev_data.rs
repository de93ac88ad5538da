//! udev runtime data (`<prefix>/udev/data/c<major>:<minor>`) as a container
//! sees it: seat assignments removed and the daemon's own input markers
//! renamed to the standard ones.

use vstd::prelude::*;
use crate::text::{
    chars_of, contains, contains_exec, decimal, find_char, lemma_find_char_range,
    lemma_find_char_unique, lemma_replace_absent, lemma_replace_avoids, lemma_replace_removes,
    lines_of, no_compatible_suffix, no_straddle, occurs_at, prefix_compatible, push_decimal, push_str,
    replace_all, replace_exec, split_lines, strip_cr, string_of,
};

verus! {

/// `ID_SEAT=`
pub open spec fn seat_assignment() -> Seq<char> {
    seq!['I', 'D', '_', 'S', 'E', 'A', 'T', '=']
}

/// `seat_`
pub open spec fn seat_reference() -> Seq<char> {
    seq!['s', 'e', 'a', 't', '_']
}

/// `ID_VUINPUT_KEYBOARD=1`
pub open spec fn vuinput_keyboard() -> Seq<char> {
    seq![
        'I', 'D', '_', 'V', 'U', 'I', 'N', 'P', 'U', 'T', '_', 'K', 'E', 'Y', 'B', 'O', 'A', 'R',
        'D', '=', '1',
    ]
}

/// `ID_INPUT_KEYBOARD=1`
pub open spec fn input_keyboard() -> Seq<char> {
    seq![
        'I', 'D', '_', 'I', 'N', 'P', 'U', 'T', '_', 'K', 'E', 'Y', 'B', 'O', 'A', 'R', 'D', '=',
        '1',
    ]
}

/// `ID_VUINPUT_MOUSE=1`
pub open spec fn vuinput_mouse() -> Seq<char> {
    seq!['I', 'D', '_', 'V', 'U', 'I', 'N', 'P', 'U', 'T', '_', 'M', 'O', 'U', 'S', 'E', '=', '1']
}

/// `ID_INPUT_MOUSE=1`
pub open spec fn input_mouse() -> Seq<char> {
    seq!['I', 'D', '_', 'I', 'N', 'P', 'U', 'T', '_', 'M', 'O', 'U', 'S', 'E', '=', '1']
}

/// Whether a line of udev data survives: it names no seat.
pub open spec fn keep_line(l: Seq<char>) -> bool {
    !contains(l, seat_assignment()) && !contains(l, seat_reference())
}

/// A surviving line with the input markers renamed.
pub open spec fn sanitize_line(l: Seq<char>) -> Seq<char> {
    replace_all(replace_all(l, vuinput_keyboard(), input_keyboard()), vuinput_mouse(), input_mouse())
}

/// The surviving lines, renamed, each ended by `\n`.
pub open spec fn sanitized_lines(ls: Seq<Seq<char>>) -> Seq<char>
    decreases ls.len(),
{
    if ls.len() == 0 {
        Seq::empty()
    } else {
        let prev = sanitized_lines(ls.drop_last());
        if keep_line(ls.last()) {
            prev + sanitize_line(ls.last()).push('\n')
        } else {
            prev
        }
    }
}

/// The udev data a container gets for the host's udev data `s`.
pub open spec fn sanitized(s: Seq<char>) -> Seq<char> {
    sanitized_lines(lines_of(s))
}

/// Removes every line that contains `ID_SEAT=` or `seat_`, renames
/// `ID_VUINPUT_KEYBOARD=1` and `ID_VUINPUT_MOUSE=1` to `ID_INPUT_KEYBOARD=1`
/// and `ID_INPUT_MOUSE=1`, and ends every line with `\n`.
pub fn sanitize_udev_data(content: &str) -> (r: String)
    ensures
        r@ == sanitized(content@),
{
    let text = chars_of(content);
    let lines = split_lines(&text);
    let seat_assignment_p = chars_of("ID_SEAT=");
    let seat_reference_p = chars_of("seat_");
    let vk = chars_of("ID_VUINPUT_KEYBOARD=1");
    let ik = chars_of("ID_INPUT_KEYBOARD=1");
    let vm = chars_of("ID_VUINPUT_MOUSE=1");
    let im = chars_of("ID_INPUT_MOUSE=1");
    proof {
        reveal_strlit("ID_SEAT=");
        reveal_strlit("seat_");
        reveal_strlit("ID_VUINPUT_KEYBOARD=1");
        reveal_strlit("ID_INPUT_KEYBOARD=1");
        reveal_strlit("ID_VUINPUT_MOUSE=1");
        reveal_strlit("ID_INPUT_MOUSE=1");
        assert(seat_assignment_p@ =~= seat_assignment());
        assert(seat_reference_p@ =~= seat_reference());
        assert(vk@ =~= vuinput_keyboard());
        assert(ik@ =~= input_keyboard());
        assert(vm@ =~= vuinput_mouse());
        assert(im@ =~= input_mouse());
    }
    let ghost ls = lines@.map_values(|l: Vec<char>| l@);
    let mut out: Vec<char> = Vec::new();
    let mut i: usize = 0;
    while i < lines.len()
        invariant
            i <= lines@.len(),
            ls == lines@.map_values(|l: Vec<char>| l@),
            ls == lines_of(content@),
            seat_assignment_p@ == seat_assignment(),
            seat_reference_p@ == seat_reference(),
            vk@ == vuinput_keyboard(),
            ik@ == input_keyboard(),
            vm@ == vuinput_mouse(),
            im@ == input_mouse(),
            vk@.len() > 0,
            vm@.len() > 0,
            out@ == sanitized_lines(ls.subrange(0, i as int)),
        decreases lines@.len() - i,
    {
        let line = &lines[i];
        proof {
            assert(ls.subrange(0, i + 1).drop_last() =~= ls.subrange(0, i as int));
            assert(ls.subrange(0, i + 1).last() == line@);
        }
        if !contains_exec(line, &seat_assignment_p) && !contains_exec(line, &seat_reference_p) {
            let step = replace_exec(line, &vk, &ik);
            let renamed = replace_exec(&step, &vm, &im);
            let mut k: usize = 0;
            let ghost before = out@;
            while k < renamed.len()
                invariant
                    k <= renamed@.len(),
                    out@ == before + renamed@.subrange(0, k as int),
                decreases renamed@.len() - k,
            {
                out.push(renamed[k]);
                k = k + 1;
                assert(out@ =~= before + renamed@.subrange(0, k as int));
            }
            out.push('\n');
            assert(renamed@.subrange(0, k as int) =~= renamed@);
            assert(out@ =~= before + renamed@.push('\n'));
        }
        i = i + 1;
    }
    assert(ls.subrange(0, i as int) =~= ls);
    string_of(&out)
}

/// The path of the udev data of device `major:minor` under `prefix`.
pub open spec fn udev_data_path_of(prefix: Seq<char>, major: nat, minor: nat) -> Seq<char> {
    prefix + "/udev/data/c"@ + decimal(major) + ":"@ + decimal(minor)
}

/// The path of the udev data of device `major:minor` under `prefix`.
pub fn udev_data_path(prefix: &str, major: u64, minor: u64) -> (r: String)
    ensures
        r@ == udev_data_path_of(prefix@, major as nat, minor as nat),
{
    let mut out: Vec<char> = Vec::new();
    push_str(&mut out, prefix);
    push_str(&mut out, "/udev/data/c");
    push_decimal(&mut out, major);
    push_str(&mut out, ":");
    push_decimal(&mut out, minor);
    assert(out@ =~= udev_data_path_of(prefix@, major as nat, minor as nat));
    string_of(&out)
}

} // verus!

verus! {

/// The surviving lines, renamed.
pub open spec fn out_lines(ls: Seq<Seq<char>>) -> Seq<Seq<char>>
    decreases ls.len(),
{
    if ls.len() == 0 {
        Seq::empty()
    } else {
        let prev = out_lines(ls.drop_last());
        if keep_line(ls.last()) {
            prev.push(sanitize_line(ls.last()))
        } else {
            prev
        }
    }
}

/// Lines joined, each ended by `\n`.
pub open spec fn join_lines(xs: Seq<Seq<char>>) -> Seq<char>
    decreases xs.len(),
{
    if xs.len() == 0 {
        Seq::empty()
    } else {
        join_lines(xs.drop_last()) + xs.last().push('\n')
    }
}

pub open spec fn newline() -> Seq<char> {
    seq!['\n']
}

pub open spec fn crlf() -> Seq<char> {
    seq!['\r', '\n']
}

proof fn lemma_sanitized_is_join(ls: Seq<Seq<char>>)
    ensures
        sanitized_lines(ls) == join_lines(out_lines(ls)),
    decreases ls.len(),
{
    if ls.len() > 0 {
        lemma_sanitized_is_join(ls.drop_last());
        if keep_line(ls.last()) {
            let o = out_lines(ls.drop_last()).push(sanitize_line(ls.last()));
            assert(o.drop_last() =~= out_lines(ls.drop_last()));
        }
    }
}

/// The facts about the two renamings that the proofs below need, read off
/// the patterns.
proof fn lemma_pattern_facts()
    ensures
        !contains(input_keyboard(), vuinput_keyboard()),
        no_straddle(input_keyboard(), vuinput_keyboard()),
        no_compatible_suffix(input_keyboard(), vuinput_keyboard(), 1),
        !contains(input_mouse(), vuinput_mouse()),
        no_straddle(input_mouse(), vuinput_mouse()),
        no_compatible_suffix(input_mouse(), vuinput_mouse(), 1),
        !contains(input_mouse(), vuinput_keyboard()),
        no_straddle(input_mouse(), vuinput_keyboard()),
        no_compatible_suffix(input_mouse(), vuinput_keyboard(), 1),
        forall|r: Seq<char>| r == input_keyboard() || r == input_mouse() ==> {
            &&& !contains(r, seat_assignment())
            &&& no_straddle(r, seat_assignment())
            &&& no_compatible_suffix(r, seat_assignment(), 1)
            &&& !contains(r, seat_reference())
            &&& no_straddle(r, seat_reference())
            &&& no_compatible_suffix(r, seat_reference(), 1)
            &&& !contains(r, newline())
            &&& no_straddle(r, newline())
            &&& no_compatible_suffix(r, newline(), 1)
        },
{
    let ik = input_keyboard();
    let im = input_mouse();
    let vk = vuinput_keyboard();
    let vm = vuinput_mouse();
    // A straddling occurrence ends with the replacement's last character `1`.
    assert forall|r: Seq<char>, q: Seq<char>|
        (r == ik || r == im) && (q == vk || q == vm || q == seat_assignment() || q
            == seat_reference() || q == newline()) implies no_straddle(r, q) by {
        assert forall|i: int| 0 <= i < r.len() && r.len() - i < q.len() implies #[trigger] r.subrange(
            i,
            r.len() as int,
        ) != q.subrange(0, r.len() - i) by {
            let n = r.len() - i;
            if r.subrange(i, r.len() as int) == q.subrange(0, n) {
                assert(r.subrange(i, r.len() as int)[n - 1] == r[r.len() - 1]);
                assert(q.subrange(0, n)[n - 1] == q[n - 1]);
                assert(r.subrange(i, r.len() as int)[0] == r[i]);
                assert(q.subrange(0, n)[0] == q[0]);
            }
        }
    }
    // A compatible suffix would begin with the replacement's first two characters `ID`.
    assert forall|r: Seq<char>, q: Seq<char>|
        (r == ik || r == im) && (q == vk || q == vm || q == seat_assignment() || q
            == seat_reference() || q == newline()) implies no_compatible_suffix(r, q, 1) by {
        assert forall|k: int| 1 <= k < q.len() implies !prefix_compatible(
            r,
            #[trigger] q.subrange(k, q.len() as int),
        ) by {
            let w = q.subrange(k, q.len() as int);
            if prefix_compatible(r, w) {
                assert(r.subrange(0, 1)[0] == r[0]);
                assert(w.subrange(0, 1)[0] == q[k]);
                if w.len() > 1 {
                    assert(r.subrange(0, 2)[1] == r[1]);
                    assert(w.subrange(0, 2)[1] == q[k + 1]);
                    let n = if r.len() < w.len() {
                        r.len()
                    } else {
                        w.len()
                    };
                    assert(r.subrange(0, n as int)[1] == r[1]);
                    assert(w.subrange(0, n as int)[1] == q[k + 1]);
                }
                let n = if r.len() < w.len() {
                    r.len()
                } else {
                    w.len()
                };
                assert(r.subrange(0, n as int)[0] == r[0]);
                assert(w.subrange(0, n as int)[0] == q[k]);
            }
        }
    }
    // An occurrence inside a replacement would need an `=` or `S` or `s` or a newline where it has none.
    assert forall|r: Seq<char>, q: Seq<char>|
        (r == ik || r == im) && (q == vk || q == vm || q == seat_assignment() || q
            == seat_reference() || q == newline()) && (q != vk || r == ik || r == im) implies !contains(
        r,
        q,
    ) by {
        assert forall|i: int| !occurs_at(r, q, i) by {
            if occurs_at(r, q, i) {
                assert(r.subrange(i, i + q.len())[0] == r[i]);
                assert(q[0] == r[i]);
                if q.len() > 1 {
                    assert(r.subrange(i, i + q.len())[1] == r[i + 1]);
                    assert(q[1] == r[i + 1]);
                    assert(r.subrange(i, i + q.len())[3] == r[i + 3]);
                    assert(q[3] == r[i + 3]);
                }
            }
        }
    }
}

/// Every line of a text is free of `\n`.
proof fn lemma_lines_no_newline(s: Seq<char>)
    ensures
        forall|i: int| 0 <= i < lines_of(s).len() ==> !contains(#[trigger] lines_of(s)[i], newline()),
    decreases s.len(),
{
    if s.len() > 0 {
        lemma_find_char_range(s, '\n');
        match find_char(s, '\n') {
            None => {
                assert forall|j: int| !occurs_at(s, newline(), j) by {
                    if occurs_at(s, newline(), j) {
                        assert(s.subrange(j, j + 1)[0] == s[j]);
                    }
                }
            },
            Some(k) => {
                let rest = s.subrange(k + 1, s.len() as int);
                lemma_lines_no_newline(rest);
                let first = strip_cr(s.subrange(0, k));
                assert forall|j: int| !occurs_at(first, newline(), j) by {
                    if occurs_at(first, newline(), j) {
                        assert(first.subrange(j, j + 1)[0] == first[j]);
                        assert(first[j] == s[j]);
                    }
                }
                assert forall|i: int| 0 <= i < lines_of(s).len() implies !contains(
                    #[trigger] lines_of(s)[i],
                    newline(),
                ) by {
                    if i > 0 {
                        assert(lines_of(s)[i] == lines_of(rest)[i - 1]);
                    }
                }
            },
        }
    }
}

/// A surviving line, renamed, survives, holds no `\n` if the line held
/// none, and is left as it is by a second renaming.
proof fn lemma_sanitize_line(l: Seq<char>)
    requires
        keep_line(l),
    ensures
        keep_line(sanitize_line(l)),
        sanitize_line(sanitize_line(l)) == sanitize_line(l),
        !contains(l, newline()) ==> !contains(sanitize_line(l), newline()),
{
    lemma_pattern_facts();
    let ik = input_keyboard();
    let im = input_mouse();
    let vk = vuinput_keyboard();
    let vm = vuinput_mouse();
    let x = replace_all(l, vk, ik);
    let y = replace_all(x, vm, im);
    lemma_replace_avoids(l, vk, ik, seat_assignment());
    lemma_replace_avoids(l, vk, ik, seat_reference());
    lemma_replace_avoids(x, vm, im, seat_assignment());
    lemma_replace_avoids(x, vm, im, seat_reference());
    if !contains(l, newline()) {
        lemma_replace_avoids(l, vk, ik, newline());
        lemma_replace_avoids(x, vm, im, newline());
    }
    lemma_replace_removes(l, vk, ik);
    lemma_replace_avoids(x, vm, im, vk);
    lemma_replace_removes(x, vm, im);
    lemma_replace_absent(y, vk, ik);
    lemma_replace_absent(y, vm, im);
}

proof fn lemma_out_lines_idempotent(ls: Seq<Seq<char>>)
    ensures
        out_lines(out_lines(ls)) == out_lines(ls),
    decreases ls.len(),
{
    if ls.len() > 0 {
        lemma_out_lines_idempotent(ls.drop_last());
        let prev = out_lines(ls.drop_last());
        if keep_line(ls.last()) {
            lemma_sanitize_line(ls.last());
            let o = prev.push(sanitize_line(ls.last()));
            assert(o.drop_last() =~= prev);
        }
    }
}

proof fn lemma_out_lines_no_newline(ls: Seq<Seq<char>>)
    requires
        forall|i: int| 0 <= i < ls.len() ==> !contains(#[trigger] ls[i], newline()),
    ensures
        forall|i: int| 0 <= i < out_lines(ls).len() ==> !contains(#[trigger] out_lines(ls)[i], newline()),
    decreases ls.len(),
{
    if ls.len() > 0 {
        assert forall|i: int| 0 <= i < ls.drop_last().len() implies !contains(
            #[trigger] ls.drop_last()[i],
            newline(),
        ) by {
            assert(ls.drop_last()[i] == ls[i]);
        }
        lemma_out_lines_no_newline(ls.drop_last());
        let prev = out_lines(ls.drop_last());
        if keep_line(ls.last()) {
            assert(ls.last() == ls[ls.len() - 1]);
            lemma_sanitize_line(ls.last());
            let o = prev.push(sanitize_line(ls.last()));
            assert forall|i: int| 0 <= i < o.len() implies !contains(#[trigger] o[i], newline()) by {
                if i < prev.len() {
                    assert(o[i] == prev[i]);
                }
            }
        }
    }
}

/// Joining behind a first line.
proof fn lemma_join_front(x: Seq<char>, rest: Seq<Seq<char>>)
    ensures
        join_lines(seq![x] + rest) == x.push('\n') + join_lines(rest),
    decreases rest.len(),
{
    if rest.len() > 0 {
        lemma_join_front(x, rest.drop_last());
        assert((seq![x] + rest).drop_last() =~= seq![x] + rest.drop_last());
        assert((seq![x] + rest).last() == rest.last());
        assert(join_lines(seq![x] + rest) == join_lines(seq![x] + rest.drop_last()) + rest.last().push(
            '\n',
        ));
        assert(join_lines(rest) == join_lines(rest.drop_last()) + rest.last().push('\n'));
        assert(x.push('\n') + join_lines(rest.drop_last()) + rest.last().push('\n') =~= x.push('\n')
            + join_lines(rest));
    } else {
        assert(seq![x] + rest =~= seq![x]);
        assert(seq![x].drop_last() =~= Seq::<Seq<char>>::empty());
        assert(join_lines(seq![x]) == join_lines(Seq::<Seq<char>>::empty()) + x.push('\n'));
        assert(join_lines(rest) =~= Seq::<char>::empty());
        assert(x.push('\n') + join_lines(rest) =~= x.push('\n'));
        assert(Seq::<char>::empty() + x.push('\n') =~= x.push('\n'));
    }
}

/// The lines of joined lines are those lines, when none holds a `\n` or
/// ends with `\r`.
proof fn lemma_lines_of_join(xs: Seq<Seq<char>>)
    requires
        forall|i: int| 0 <= i < xs.len() ==> !contains(#[trigger] xs[i], newline()),
        forall|i: int| 0 <= i < xs.len() ==> !(xs[i].len() > 0 && #[trigger] xs[i].last() == '\r'),
    ensures
        lines_of(join_lines(xs)) == xs,
    decreases xs.len(),
{
    if xs.len() > 0 {
        let x = xs[0];
        let rest = xs.drop_first();
        assert(xs =~= seq![x] + rest);
        lemma_join_front(x, rest);
        assert forall|i: int| 0 <= i < rest.len() implies !contains(#[trigger] rest[i], newline())
            && !(rest[i].len() > 0 && rest[i].last() == '\r') by {
            assert(rest[i] == xs[i + 1]);
        }
        lemma_lines_of_join(rest);
        let j = x.push('\n') + join_lines(rest);
        assert forall|k: int| 0 <= k < x.len() implies j[k] != '\n' by {
            assert(j[k] == x[k]);
            if x[k] == '\n' {
                assert(x.subrange(k, k + 1) =~= newline());
                assert(occurs_at(x, newline(), k));
            }
        }
        lemma_find_char_unique(j, '\n', x.len() as int);
        assert(j.subrange(0, x.len() as int) =~= x);
        assert(j.subrange(x.len() + 1 as int, j.len() as int) =~= join_lines(rest));
        assert(strip_cr(x) == x);
        assert(lines_of(j) =~= seq![x] + rest);
    }
}

/// No joined line ends with `\r` when the join holds no `\r\n`.
proof fn lemma_join_no_cr(xs: Seq<Seq<char>>)
    requires
        !contains(join_lines(xs), crlf()),
    ensures
        forall|i: int| 0 <= i < xs.len() ==> !(xs[i].len() > 0 && #[trigger] xs[i].last() == '\r'),
    decreases xs.len(),
{
    if xs.len() > 0 {
        let prev = join_lines(xs.drop_last());
        let j = join_lines(xs);
        assert(j == prev + xs.last().push('\n'));
        assert forall|i: int| !occurs_at(prev, crlf(), i) by {
            if occurs_at(prev, crlf(), i) {
                assert(j.subrange(i, i + 2) =~= prev.subrange(i, i + 2));
                assert(occurs_at(j, crlf(), i));
            }
        }
        lemma_join_no_cr(xs.drop_last());
        let l = xs.last();
        if l.len() > 0 && l.last() == '\r' {
            let k = prev.len() + l.len() - 1;
            assert(j.subrange(k, k + 2) =~= crlf());
            assert(occurs_at(j, crlf(), k));
        }
        assert forall|i: int| 0 <= i < xs.len() implies !(xs[i].len() > 0 && #[trigger] xs[i].last()
            == '\r') by {
            if i < xs.len() - 1 {
                assert(xs[i] == xs.drop_last()[i]);
            }
        }
    }
}

/// Sanitizing sanitized udev data changes nothing, as long as no line of
/// the output ends with a carriage return (the line splitting would strip
/// it the second time).
pub proof fn lemma_sanitize_idempotent(s: Seq<char>)
    requires
        !contains(sanitized(s), crlf()),
    ensures
        sanitized(sanitized(s)) == sanitized(s),
{
    let ls = lines_of(s);
    let o = out_lines(ls);
    lemma_sanitized_is_join(ls);
    lemma_lines_no_newline(s);
    lemma_out_lines_no_newline(ls);
    lemma_join_no_cr(o);
    lemma_lines_of_join(o);
    lemma_sanitized_is_join(o);
    lemma_out_lines_idempotent(ls);
}

} // verus!
