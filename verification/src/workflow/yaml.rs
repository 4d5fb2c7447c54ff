use crate::json::{is_digit, lemma_arr_view, lemma_obj_view, sp_int, JsonSpec, JsonValue};
use vstd::prelude::*;

verus! {

// The line-oriented plan encoding: nested maps and lists written by
// indentation, two spaces per level, with `- ` introducing a list item and
// `key: value` or `key:` plus an indented block introducing a map entry. A
// scalar is the literal `null`, `true` or `false`, an integer, or otherwise
// the text itself. The parser produces the same structured values as the
// object encoding, so both front ends feed one converter.
/// Splits a text into its lines, separated by newline characters.
pub open spec fn sp_split_lines(s: Seq<char>) -> Seq<Seq<char>>
    decreases s.len(),
{
    if s.len() == 0 {
        seq![Seq::empty()]
    } else if s.last() == '\n' {
        sp_split_lines(s.drop_last()).push(Seq::empty())
    } else {
        let rest = sp_split_lines(s.drop_last());
        rest.update(rest.len() - 1, rest.last().push(s.last()))
    }
}

/// The number of leading spaces of a line, scanning from `i`.
pub open spec fn sp_indent_from(line: Seq<char>, i: int) -> int
    decreases line.len() - i,
{
    if 0 <= i < line.len() && line[i] == ' ' {
        sp_indent_from(line, i + 1)
    } else {
        i
    }
}

/// Whether a line holds only spaces.
pub open spec fn sp_blank(line: Seq<char>) -> bool {
    sp_indent_from(line, 0) == line.len()
}

/// The end of a line once trailing spaces are dropped, scanning back from `h`.
pub open spec fn sp_rtrim(line: Seq<char>, h: int) -> int
    decreases h,
{
    if 0 < h <= line.len() && line[h - 1] == ' ' {
        sp_rtrim(line, h - 1)
    } else {
        h
    }
}

/// The line with surrounding spaces removed.
pub open spec fn sp_trim(line: Seq<char>) -> Seq<char> {
    let a = sp_indent_from(line, 0);
    if a == line.len() {
        Seq::empty()
    } else {
        line.subrange(a, sp_rtrim(line, line.len() as int))
    }
}

/// The position of the first `: ` separator (or a trailing `:`), if any.
pub open spec fn sp_find_colon(line: Seq<char>, i: int) -> Option<int>
    decreases line.len() - i,
{
    if i < 0 || i >= line.len() {
        None
    } else if line[i] == ':' && (i + 1 == line.len() || line[i + 1] == ' ') {
        Some(i)
    } else {
        sp_find_colon(line, i + 1)
    }
}

/// What a scalar text denotes: the `null`, `true` and `false` literals and
/// integers keep their usual meanings; any other text is itself.
pub open spec fn sp_scalar(t: Seq<char>) -> JsonSpec {
    if t == "null"@ || t == "~"@ {
        JsonSpec::Null
    } else if t == "true"@ {
        JsonSpec::Bool(true)
    } else if t == "false"@ {
        JsonSpec::Bool(false)
    } else if t.len() > 0 && (is_digit(t[0]) || (t[0] == '-' && t.len() > 1 && is_digit(t[1])))
        && (sp_int(t, 0) matches Some((v, j)) && j == t.len()) {
        JsonSpec::Int(sp_int(t, 0)->Some_0.0)
    } else {
        JsonSpec::Str(t)
    }
}

/// The next line index at or after `i` that is not blank.
pub open spec fn sp_skip_blank(lines: Seq<Seq<char>>, i: int) -> int
    decreases lines.len() - i,
{
    if 0 <= i < lines.len() && sp_blank(lines[i]) {
        sp_skip_blank(lines, i + 1)
    } else {
        i
    }
}

/// Parses the block that starts at the first non-blank line at or after `i`,
/// which must be indented exactly `ind`: a list if that line starts with `-`,
/// a map otherwise. Yields the value and the next unconsumed line. The fuel
/// bounds nesting; one more than the line count always suffices.
pub open spec fn sp_yblock(lines: Seq<Seq<char>>, i: int, ind: int, fuel: nat) -> Option<
    (JsonSpec, int),
>
    decreases fuel, lines.len() - i, 2int,
{
    if fuel == 0 {
        None
    } else {
        let j = sp_skip_blank(lines, i);
        if j < 0 || j >= lines.len() {
            None
        } else if sp_indent_from(lines[j], 0) != ind {
            None
        } else if ind < lines[j].len() && lines[j][ind] == '-' {
            match sp_ylist(lines, j, ind, (fuel - 1) as nat) {
                Some((items, k)) => Some((JsonSpec::Arr(items), k)),
                None => None,
            }
        } else {
            match sp_ymap(lines, j, ind, (fuel - 1) as nat) {
                Some((members, k)) => Some((JsonSpec::Obj(members), k)),
                None => None,
            }
        }
    }
}

/// Parses one map entry from the text after the key's colon: an inline scalar,
/// or a nested block on the following lines, or null when nothing follows.
pub open spec fn sp_yvalue(
    lines: Seq<Seq<char>>,
    i: int,
    ind: int,
    rest: Seq<char>,
    fuel: nat,
) -> Option<(JsonSpec, int)>
    decreases fuel, lines.len() - i, 0int,
{
    if sp_trim(rest).len() > 0 {
        Some((sp_scalar(sp_trim(rest)), i + 1))
    } else {
        let j = sp_skip_blank(lines, i + 1);
        if 0 <= j < lines.len() && sp_indent_from(lines[j], 0) > ind && !sp_blank(lines[j]) {
            if fuel == 0 {
                None
            } else {
                sp_yblock(lines, j, sp_indent_from(lines[j], 0), (fuel - 1) as nat)
            }
        } else {
            Some((JsonSpec::Null, i + 1))
        }
    }
}

/// Parses the entries of a map whose keys sit at indent `ind`, starting at
/// line `i` (not blank, indented `ind`).
pub open spec fn sp_ymap(lines: Seq<Seq<char>>, i: int, ind: int, fuel: nat) -> Option<
    (Seq<(Seq<char>, JsonSpec)>, int),
>
    decreases fuel, lines.len() - i, 1int,
{
    if i < 0 || i >= lines.len() {
        None
    } else {
        let line = lines[i];
        match sp_find_colon(line, ind) {
            None => None,
            Some(c) => {
                let key = sp_trim(line.subrange(ind, c));
                let rest = line.subrange(c + 1, line.len() as int);
                match sp_yvalue(lines, i, ind, rest, fuel) {
                    None => None,
                    Some((val, j)) => {
                        if j <= i {
                            None
                        } else {
                            let j2 = sp_skip_blank(lines, j);
                            if 0 <= j2 < lines.len() && sp_indent_from(lines[j2], 0) == ind
                                && !(ind < lines[j2].len() && lines[j2][ind] == '-') {
                                if j2 <= i {
                                    None
                                } else {
                                    match sp_ymap(lines, j2, ind, fuel) {
                                        None => None,
                                        Some((rest_members, k)) => Some(
                                            (seq![(key, val)] + rest_members, k),
                                        ),
                                    }
                                }
                            } else {
                                Some((seq![(key, val)], j))
                            }
                        }
                    },
                }
            },
        }
    }
}

/// Parses the items of a list whose dashes sit at indent `ind`, starting at
/// line `i` (not blank, indented `ind`, starting with `-`).
pub open spec fn sp_ylist(lines: Seq<Seq<char>>, i: int, ind: int, fuel: nat) -> Option<
    (Seq<JsonSpec>, int),
>
    decreases fuel, lines.len() - i, 1int,
{
    if i < 0 || i >= lines.len() || ind < 0 || ind + 1 > lines[i].len() {
        None
    } else {
        let line = lines[i];
        let after = line.subrange(ind + 1, line.len() as int);
        match sp_yitem(lines, i, ind, after, fuel) {
            None => None,
            Some((val, j)) => {
                if j <= i {
                    None
                } else {
                    let j2 = sp_skip_blank(lines, j);
                    if 0 <= j2 < lines.len() && sp_indent_from(lines[j2], 0) == ind && ind
                        < lines[j2].len() && lines[j2][ind] == '-' {
                        if j2 <= i {
                            None
                        } else {
                            match sp_ylist(lines, j2, ind, fuel) {
                                None => None,
                                Some((rest_items, k)) => Some((seq![val] + rest_items, k)),
                            }
                        }
                    } else {
                        Some((seq![val], j))
                    }
                }
            },
        }
    }
}

/// Parses one list item from the text after its dash: an inline map entry
/// (continued on deeper lines), an inline scalar, or a nested block.
pub open spec fn sp_yitem(
    lines: Seq<Seq<char>>,
    i: int,
    ind: int,
    after: Seq<char>,
    fuel: nat,
) -> Option<(JsonSpec, int)>
    decreases fuel, lines.len() - i, 0int,
{
    if fuel == 0 {
        None
    } else if sp_trim(after).len() == 0 {
        // the item's value is the block on the following deeper lines
        let j = sp_skip_blank(lines, i + 1);
        if 0 <= j < lines.len() && sp_indent_from(lines[j], 0) > ind {
            sp_yblock(lines, j, sp_indent_from(lines[j], 0), (fuel - 1) as nat)
        } else {
            Some((JsonSpec::Null, i + 1))
        }
    } else {
        match sp_find_colon(after, 0) {
            Some(_) => {
                // an inline map entry: the item is a map at indent `ind + 2`
                match sp_yinline_map(lines, i, ind + 2, (fuel - 1) as nat) {
                    Some((members, j)) => Some((JsonSpec::Obj(members), j)),
                    None => None,
                }
            },
            None => Some((sp_scalar(sp_trim(after)), i + 1)),
        }
    }
}

/// Parses the map written inline after a dash: the entry on the dash's own
/// line (its key starts at `ind`), then any further entries on lines indented
/// exactly `ind`.
pub open spec fn sp_yinline_map(lines: Seq<Seq<char>>, i: int, ind: int, fuel: nat) -> Option<
    (Seq<(Seq<char>, JsonSpec)>, int),
>
    decreases fuel, lines.len() - i, 1int,
{
    if i < 0 || i >= lines.len() {
        None
    } else {
        let line = lines[i];
        match sp_find_colon(line, ind) {
            None => None,
            Some(c) => {
                let key = sp_trim(line.subrange(ind, c));
                let rest = line.subrange(c + 1, line.len() as int);
                match sp_yvalue(lines, i, ind, rest, fuel) {
                    None => None,
                    Some((val, j)) => {
                        if j <= i {
                            None
                        } else {
                            let j2 = sp_skip_blank(lines, j);
                            if 0 <= j2 < lines.len() && sp_indent_from(lines[j2], 0) == ind
                                && !(ind < lines[j2].len() && lines[j2][ind] == '-') {
                                if j2 <= i {
                                    None
                                } else {
                                    match sp_yinline_map(lines, j2, ind, fuel) {
                                        None => None,
                                        Some((rest_members, k)) => Some(
                                            (seq![(key, val)] + rest_members, k),
                                        ),
                                    }
                                }
                            } else {
                                Some((seq![(key, val)], j))
                            }
                        }
                    },
                }
            },
        }
    }
}

/// What a whole line-oriented text denotes: one top-level block at indent
/// zero, with only blank lines after it.
pub open spec fn spec_parse_yaml(s: Seq<char>) -> Option<JsonSpec> {
    let lines = sp_split_lines(s);
    let fuel: nat = if lines.len() + 1 <= usize::MAX { (lines.len() + 1) as nat } else {
        usize::MAX as nat
    };
    match sp_yblock(lines, 0, 0, fuel) {
        None => None,
        Some((v, j)) => {
            if sp_skip_blank(lines, j) == lines.len() {
                Some(v)
            } else {
                None
            }
        },
    }
}


/// The character sequences of the lines, in order.
pub open spec fn lines_view(v: Seq<Vec<char>>) -> Seq<Seq<char>> {
    Seq::new(v.len(), |i: int| if 0 <= i < v.len() { v[i]@ } else { Seq::empty() })
}

/// Indexing the model of a line list gives the characters of the line there.
pub broadcast proof fn lemma_lines_view_index(v: Seq<Vec<char>>, i: int)
    requires
        0 <= i < v.len(),
    ensures
        (#[trigger] lines_view(v)[i]) == v[i]@,
{
}

/// A line list and its model have the same length.
pub broadcast proof fn lemma_lines_view_len(v: Seq<Vec<char>>)
    ensures
        (#[trigger] lines_view(v)).len() == v.len(),
{
}

/// Splits a text into its lines.
pub(crate) fn split_lines(cs: &Vec<char>) -> (r: Vec<Vec<char>>)
    ensures
        lines_view(r@) == sp_split_lines(cs@),
{
    let mut lines: Vec<Vec<char>> = Vec::new();
    let mut cur: Vec<char> = Vec::new();
    let mut i: usize = 0;
    while i < cs.len()
        invariant
            i <= cs@.len(),
            sp_split_lines(cs@.subrange(0, i as int)) == lines_view(lines@).push(cur@),
        decreases cs@.len() - i,
    {
        proof {
            broadcast use lemma_lines_view_index, lemma_lines_view_len;

            assert(cs@.subrange(0, i + 1).drop_last() =~= cs@.subrange(0, i as int));
            assert(cs@.subrange(0, i + 1).last() == cs@[i as int]);
        }
        let ghost old_lines = lines@;
        let ghost old_cur = cur@;
        if cs[i] == '\n' {
            lines.push(cur);
            cur = Vec::new();
            proof {
                broadcast use lemma_lines_view_index, lemma_lines_view_len;

                assert(lines_view(lines@).push(cur@) =~= sp_split_lines(
                    cs@.subrange(0, i as int),
                ).push(Seq::empty()));
            }
        } else {
            let c = cs[i];
            cur.push(c);
            proof {
                broadcast use lemma_lines_view_index, lemma_lines_view_len;

                let prev = lines_view(old_lines).push(old_cur);
                assert(lines_view(lines@).push(cur@) =~= prev.update(
                    prev.len() - 1,
                    prev.last().push(c),
                ));
            }
        }
        i = i + 1;
    }
    lines.push(cur);
    proof {
        broadcast use lemma_lines_view_index, lemma_lines_view_len;

        assert(cs@.subrange(0, cs@.len() as int) =~= cs@);
        assert(lines_view(lines@) =~= sp_split_lines(cs@));
    }
    lines
}

/// The number of leading spaces of a line, scanning from `i`.
fn indent_from(line: &Vec<char>, i: usize) -> (r: usize)
    ensures
        r == sp_indent_from(line@, i as int),
        i <= r,
        i <= line@.len() ==> r <= line@.len(),
{
    let mut k = i;
    while k < line.len() && line[k] == ' '
        invariant
            i <= k,
            k <= line@.len() || k == i,
            sp_indent_from(line@, i as int) == sp_indent_from(line@, k as int),
        decreases line@.len() - k,
    {
        k = k + 1;
    }
    k
}

/// Whether a line holds only spaces.
fn blank(line: &Vec<char>) -> (r: bool)
    ensures
        r == sp_blank(line@),
{
    indent_from(line, 0) == line.len()
}

/// The line with surrounding spaces removed.
pub(crate) fn trim(line: &Vec<char>) -> (r: Vec<char>)
    ensures
        r@ == sp_trim(line@),
        r@.len() <= line@.len(),
{
    let a = indent_from(line, 0);
    if a == line.len() {
        return Vec::new();
    }
    let mut h = line.len();
    while h > 0 && line[h - 1] == ' '
        invariant
            h <= line@.len(),
            sp_rtrim(line@, line@.len() as int) == sp_rtrim(line@, h as int),
        decreases h,
    {
        h = h - 1;
    }
    let mut out: Vec<char> = Vec::new();
    let mut k = a;
    proof {
        assert(a < line@.len());
        assert(sp_rtrim(line@, h as int) == h as int);
        lemma_rtrim_bounds(line@, line@.len() as int, a as int);
        assert(a < h);
    }
    while k < h
        invariant
            a <= k <= h <= line@.len(),
            out@ =~= line@.subrange(a as int, k as int),
        decreases h - k,
    {
        out.push(line[k]);
        proof {
            assert(out@ =~= line@.subrange(a as int, k + 1));
        }
        k = k + 1;
    }
    proof {
        assert(out@ =~= sp_trim(line@));
    }
    out
}

/// Scanning spaces never moves backwards and never passes the line's end.
proof fn lemma_indent_lower(line: Seq<char>, i: int)
    requires
        0 <= i,
    ensures
        sp_indent_from(line, i) >= i,
        i <= line.len() ==> sp_indent_from(line, i) <= line.len(),
    decreases line.len() - i,
{
    if i < line.len() && line[i] == ' ' {
        lemma_indent_lower(line, i + 1);
    }
}

/// The position right after the leading spaces holds no space.
proof fn lemma_indent_spaces(line: Seq<char>, i: int, a: int)
    requires
        0 <= i <= a,
        a == sp_indent_from(line, i),
        a < line.len(),
    ensures
        line[a] != ' ',
    decreases a - i,
{
    if i < line.len() && line[i] == ' ' {
        lemma_indent_lower(line, i + 1);
        lemma_indent_spaces(line, i + 1, a);
    }
}

/// Dropping trailing spaces never passes the leading non-space position.
proof fn lemma_rtrim_bounds(line: Seq<char>, h: int, a: int)
    requires
        0 <= a,
        a == sp_indent_from(line, 0),
        a < line.len(),
        a < h <= line.len(),
    ensures
        a < sp_rtrim(line, h) <= h,
    decreases h,
{
    if line[h - 1] == ' ' {
        if h - 1 == a {
            lemma_indent_spaces(line, 0, a);
        } else {
            lemma_rtrim_bounds(line, h - 1, a);
        }
    }
}

/// The position of the first `: ` separator (or a trailing `:`) at or after
/// `i`, if any.
fn find_colon(line: &Vec<char>, i: usize) -> (r: Option<usize>)
    ensures
        match r {
            Some(c) => sp_find_colon(line@, i as int) == Some(c as int),
            None => sp_find_colon(line@, i as int) is None,
        },
{
    let mut k = i;
    while k < line.len()
        invariant
            i <= k,
            sp_find_colon(line@, i as int) == sp_find_colon(line@, k as int),
        decreases line@.len() - k,
    {
        if line[k] == ':' && (k + 1 == line.len() || line[k + 1] == ' ') {
            return Some(k);
        }
        k = k + 1;
    }
    None
}

/// What a scalar text denotes.
fn scalar(t: &Vec<char>) -> (r: JsonValue)
    ensures
        r@ == sp_scalar(t@),
{
    proof {
        reveal_strlit("null");
        reveal_strlit("~");
        reveal_strlit("true");
        reveal_strlit("false");
    }
    if t.len() == 4 && t[0] == 'n' && t[1] == 'u' && t[2] == 'l' && t[3] == 'l' {
        proof {
            assert(t@ =~= "null"@);
        }
        return JsonValue::Null;
    }
    if t.len() == 1 && t[0] == '~' {
        proof {
            assert(t@ =~= "~"@);
        }
        return JsonValue::Null;
    }
    if t.len() == 4 && t[0] == 't' && t[1] == 'r' && t[2] == 'u' && t[3] == 'e' {
        proof {
            assert(t@ =~= "true"@);
        }
        return JsonValue::Bool(true);
    }
    if t.len() == 5 && t[0] == 'f' && t[1] == 'a' && t[2] == 'l' && t[3] == 's' && t[4] == 'e' {
        proof {
            assert(t@ =~= "false"@);
        }
        return JsonValue::Bool(false);
    }
    proof {
        assert(t@ != "null"@ && t@ != "~"@ && t@ != "true"@ && t@ != "false"@) by {
            if t@ == "null"@ {
                assert(t@.len() == 4 && t@[0] == 'n' && t@[1] == 'u' && t@[2] == 'l' && t@[3]
                    == 'l');
            }
            if t@ == "~"@ {
                assert(t@.len() == 1 && t@[0] == '~');
            }
            if t@ == "true"@ {
                assert(t@.len() == 4 && t@[0] == 't' && t@[1] == 'r' && t@[2] == 'u' && t@[3]
                    == 'e');
            }
            if t@ == "false"@ {
                assert(t@.len() == 5 && t@[0] == 'f' && t@[1] == 'a' && t@[2] == 'l' && t@[3]
                    == 's' && t@[4] == 'e');
            }
        }
    }
    if t.len() > 0 && (('0' <= t[0] && t[0] <= '9') || (t[0] == '-' && t.len() > 1 && '0' <= t[1]
        && t[1] <= '9')) {
        match crate::json::int_lit(t, 0) {
            Some((v, j)) => {
                if j == t.len() {
                    return JsonValue::Int(v);
                }
            },
            None => {},
        }
    }
    JsonValue::Str(crate::text::string_of(t.as_slice()))
}


/// The next line index at or after `i` that is not blank.
fn skip_blank(lines: &Vec<Vec<char>>, i: usize) -> (r: usize)
    ensures
        r == sp_skip_blank(lines_view(lines@), i as int),
        i <= r,
        i <= lines@.len() ==> r <= lines@.len(),
{
    proof {
        broadcast use lemma_lines_view_index, lemma_lines_view_len;
    }
    let mut k = i;
    while k < lines.len() && blank(&lines[k])
        invariant
            i <= k,
            k <= lines@.len() || k == i,
            sp_skip_blank(lines_view(lines@), i as int) == sp_skip_blank(
                lines_view(lines@),
                k as int,
            ),
        decreases lines@.len() - k,
    {
        proof {
            broadcast use lemma_lines_view_index, lemma_lines_view_len;
        }
        k = k + 1;
    }
    proof {
        broadcast use lemma_lines_view_index, lemma_lines_view_len;
    }
    k
}

/// Whether an executable block outcome denotes the modelled one.
pub open spec fn yvalue_matches(r: Option<(JsonValue, usize)>, s: Option<(JsonSpec, int)>) -> bool {
    match r {
        None => s is None,
        Some((v, j)) => s matches Some((sv, sj)) && v@ == sv && j == sj,
    }
}

/// Whether executable members denote the modelled ones.
pub open spec fn ymembers_match(
    r: Option<(Vec<(String, JsonValue)>, usize)>,
    s: Option<(Seq<(Seq<char>, JsonSpec)>, int)>,
) -> bool {
    match r {
        None => s is None,
        Some((ms, j)) => s matches Some((sms, sj)) && j == sj && ms@.len() == sms.len() && (forall|
            k: int,
        | 0 <= k < ms@.len() ==> #[trigger] sms[k] == (ms@[k].0@, ms@[k].1@)),
    }
}

/// Whether executable items denote the modelled ones.
pub open spec fn yitems_match(
    r: Option<(Vec<JsonValue>, usize)>,
    s: Option<(Seq<JsonSpec>, int)>,
) -> bool {
    match r {
        None => s is None,
        Some((vs, j)) => s matches Some((svs, sj)) && j == sj && vs@.len() == svs.len() && (forall|
            k: int,
        | 0 <= k < vs@.len() ==> #[trigger] svs[k] == vs@[k]@),
    }
}

fn yblock(lines: &Vec<Vec<char>>, i: usize, ind: usize, fuel: usize) -> (r: Option<
    (JsonValue, usize),
>)
    ensures
        yvalue_matches(r, sp_yblock(lines_view(lines@), i as int, ind as int, fuel as nat)),
    decreases fuel, lines@.len() - i, 2int,
{
    proof {
        broadcast use lemma_lines_view_index, lemma_lines_view_len;
    }
    if fuel == 0 {
        return None;
    }
    let j = skip_blank(lines, i);
    if j >= lines.len() {
        return None;
    }
    if indent_from(&lines[j], 0) != ind {
        return None;
    }
    if ind < lines[j].len() && lines[j][ind] == '-' {
        match ylist(lines, j, ind, fuel - 1) {
            Some((items, k)) => {
                let ghost svs = sp_ylist(
                    lines_view(lines@),
                    j as int,
                    ind as int,
                    (fuel - 1) as nat,
                )->Some_0.0;
                proof {
                    crate::json::lemma_arr_view(JsonValue::Arr(items));
                }
                let r = JsonValue::Arr(items);
                proof {
                    assert(r@->Arr_0 =~= svs);
                }
                Some((r, k))
            },
            None => None,
        }
    } else {
        match ymap(lines, j, ind, fuel - 1) {
            Some((members, k)) => {
                let ghost sms = sp_ymap(
                    lines_view(lines@),
                    j as int,
                    ind as int,
                    (fuel - 1) as nat,
                )->Some_0.0;
                proof {
                    crate::json::lemma_obj_view(JsonValue::Obj(members));
                }
                let r = JsonValue::Obj(members);
                proof {
                    assert(r@->Obj_0 =~= sms);
                }
                Some((r, k))
            },
            None => None,
        }
    }
}

fn yvalue(lines: &Vec<Vec<char>>, i: usize, ind: usize, rest: &Vec<char>, fuel: usize) -> (r:
    Option<(JsonValue, usize)>)
    requires
        i < lines@.len(),
    ensures
        yvalue_matches(
            r,
            sp_yvalue(lines_view(lines@), i as int, ind as int, rest@, fuel as nat),
        ),
    decreases fuel, lines@.len() - i, 0int,
{
    proof {
        broadcast use lemma_lines_view_index, lemma_lines_view_len;
    }
    let n = lines.len();
    let t = trim(rest);
    if t.len() > 0 {
        return Some((scalar(&t), i + 1));
    }
    let j = skip_blank(lines, i + 1);
    if j < lines.len() && indent_from(&lines[j], 0) > ind && !blank(&lines[j]) {
        if fuel == 0 {
            None
        } else {
            let nested_ind = indent_from(&lines[j], 0);
            yblock(lines, j, nested_ind, fuel - 1)
        }
    } else {
        Some((JsonValue::Null, i + 1))
    }
}

/// Copies the characters of a line from `lo` (inclusive) to `hi` (exclusive).
pub(crate) fn line_slice(line: &Vec<char>, lo: usize, hi: usize) -> (r: Vec<char>)
    requires
        lo <= hi <= line@.len(),
    ensures
        r@ == line@.subrange(lo as int, hi as int),
{
    let mut out: Vec<char> = Vec::new();
    let mut k = lo;
    while k < hi
        invariant
            lo <= k <= hi <= line@.len(),
            out@ =~= line@.subrange(lo as int, k as int),
        decreases hi - k,
    {
        out.push(line[k]);
        proof {
            assert(out@ =~= line@.subrange(lo as int, k + 1));
        }
        k = k + 1;
    }
    proof {
        assert(out@ =~= line@.subrange(lo as int, hi as int));
    }
    out
}

fn ymap(lines: &Vec<Vec<char>>, i: usize, ind: usize, fuel: usize) -> (r: Option<
    (Vec<(String, JsonValue)>, usize),
>)
    ensures
        ymembers_match(r, sp_ymap(lines_view(lines@), i as int, ind as int, fuel as nat)),
    decreases fuel, lines@.len() - i, 1int,
{
    proof {
        broadcast use lemma_lines_view_index, lemma_lines_view_len;
    }
    if i >= lines.len() {
        return None;
    }
    let line = &lines[i];
    let c = match find_colon(line, ind) {
        Some(c) => c,
        None => {
            return None;
        },
    };
    let ll = line.len();
    proof {
        lemma_colon_bounds(line@, ind as int, c as int);
        assert(c < ll);
    }
    let key_cs = trim(&line_slice(line, ind, c));
    let rest = line_slice(line, c + 1, ll);
    let val_j = yvalue(lines, i, ind, &rest, fuel);
    let (val, j) = match val_j {
        Some(vj) => vj,
        None => {
            return None;
        },
    };
    if j <= i {
        return None;
    }
    let key = crate::text::string_of(key_cs.as_slice());
    let j2 = skip_blank(lines, j);
    if j2 < lines.len() && indent_from(&lines[j2], 0) == ind && !(ind < lines[j2].len()
        && lines[j2][ind] == '-') {
        if j2 <= i {
            return None;
        }
        match ymap(lines, j2, ind, fuel) {
            None => None,
            Some((mut rest_members, k)) => {
                let ghost srest = sp_ymap(
                    lines_view(lines@),
                    j2 as int,
                    ind as int,
                    fuel as nat,
                )->Some_0.0;
                let ghost skey = sp_trim(lines_view(lines@)[i as int].subrange(ind as int, c as int));
                let ghost sval = sp_yvalue(
                    lines_view(lines@),
                    i as int,
                    ind as int,
                    lines_view(lines@)[i as int].subrange(
                        c + 1,
                        lines_view(lines@)[i as int].len() as int,
                    ),
                    fuel as nat,
                )->Some_0.0;
                rest_members.insert(0, (key, val));
                proof {
                    let whole = seq![(skey, sval)] + srest;
                    assert(whole[0] == (skey, sval));
                    assert(forall|q: int|
                        1 <= q < whole.len() ==> #[trigger] whole[q] == srest[q - 1]);
                    assert(forall|q: int|
                        0 <= q < rest_members@.len() ==> whole[q] == (
                        rest_members@[q].0@,
                        rest_members@[q].1@,
                    ));
                }
                Some((rest_members, k))
            },
        }
    } else {
        let mut one: Vec<(String, JsonValue)> = Vec::new();
        one.push((key, val));
        Some((one, j))
    }
}

fn ylist(lines: &Vec<Vec<char>>, i: usize, ind: usize, fuel: usize) -> (r: Option<
    (Vec<JsonValue>, usize),
>)
    ensures
        yitems_match(r, sp_ylist(lines_view(lines@), i as int, ind as int, fuel as nat)),
    decreases fuel, lines@.len() - i, 1int,
{
    proof {
        broadcast use lemma_lines_view_index, lemma_lines_view_len;
    }
    if i >= lines.len() {
        return None;
    }
    let line = &lines[i];
    if ind >= line.len() {
        return None;
    }
    let after = line_slice(line, ind + 1, line.len());
    proof {
        if after@.len() > 0 {
            assert(ind + 2 <= line@.len());
        }
    }
    let val_j = yitem(lines, i, ind, &after, fuel);
    let (val, j) = match val_j {
        Some(vj) => vj,
        None => {
            return None;
        },
    };
    if j <= i {
        return None;
    }
    let j2 = skip_blank(lines, j);
    if j2 < lines.len() && indent_from(&lines[j2], 0) == ind && ind < lines[j2].len()
        && lines[j2][ind] == '-' {
        if j2 <= i {
            return None;
        }
        match ylist(lines, j2, ind, fuel) {
            None => None,
            Some((mut rest_items, k)) => {
                let ghost srest = sp_ylist(
                    lines_view(lines@),
                    j2 as int,
                    ind as int,
                    fuel as nat,
                )->Some_0.0;
                let ghost sval = sp_yitem(
                    lines_view(lines@),
                    i as int,
                    ind as int,
                    lines_view(lines@)[i as int].subrange(
                        ind + 1,
                        lines_view(lines@)[i as int].len() as int,
                    ),
                    fuel as nat,
                )->Some_0.0;
                rest_items.insert(0, val);
                proof {
                    let whole = seq![sval] + srest;
                    assert(whole[0] == sval);
                    assert(forall|q: int|
                        1 <= q < whole.len() ==> #[trigger] whole[q] == srest[q - 1]);
                    assert(forall|q: int|
                        0 <= q < rest_items@.len() ==> whole[q] == rest_items@[q]@);
                }
                Some((rest_items, k))
            },
        }
    } else {
        let mut one: Vec<JsonValue> = Vec::new();
        one.push(val);
        Some((one, j))
    }
}

fn yitem(lines: &Vec<Vec<char>>, i: usize, ind: usize, after: &Vec<char>, fuel: usize) -> (r:
    Option<(JsonValue, usize)>)
    requires
        i < lines@.len(),
        after@.len() > 0 ==> ind + 2 <= usize::MAX,
    ensures
        yvalue_matches(
            r,
            sp_yitem(lines_view(lines@), i as int, ind as int, after@, fuel as nat),
        ),
    decreases fuel, lines@.len() - i, 0int,
{
    proof {
        broadcast use lemma_lines_view_index, lemma_lines_view_len;
    }
    if fuel == 0 {
        return None;
    }
    let n = lines.len();
    let t = trim(after);
    if t.len() == 0 {
        let j = skip_blank(lines, i + 1);
        if j < lines.len() && indent_from(&lines[j], 0) > ind {
            let nested_ind = indent_from(&lines[j], 0);
            yblock(lines, j, nested_ind, fuel - 1)
        } else {
            Some((JsonValue::Null, i + 1))
        }
    } else {
        match find_colon(after, 0) {
            Some(_) => {
                match yinline_map(lines, i, ind + 2, fuel - 1) {
                    Some((members, j)) => {
                        let ghost sms = sp_yinline_map(
                            lines_view(lines@),
                            i as int,
                            ind + 2,
                            (fuel - 1) as nat,
                        )->Some_0.0;
                        proof {
                            crate::json::lemma_obj_view(JsonValue::Obj(members));
                        }
                        let r = JsonValue::Obj(members);
                        proof {
                            assert(r@->Obj_0 =~= sms);
                        }
                        Some((r, j))
                    },
                    None => None,
                }
            },
            None => Some((scalar(&t), i + 1)),
        }
    }
}

fn yinline_map(lines: &Vec<Vec<char>>, i: usize, ind: usize, fuel: usize) -> (r: Option<
    (Vec<(String, JsonValue)>, usize),
>)
    ensures
        ymembers_match(r, sp_yinline_map(lines_view(lines@), i as int, ind as int, fuel as nat)),
    decreases fuel, lines@.len() - i, 1int,
{
    proof {
        broadcast use lemma_lines_view_index, lemma_lines_view_len;
    }
    if i >= lines.len() {
        return None;
    }
    let line = &lines[i];
    let c = match find_colon(line, ind) {
        Some(c) => c,
        None => {
            return None;
        },
    };
    let ll = line.len();
    proof {
        lemma_colon_bounds(line@, ind as int, c as int);
        assert(c < ll);
    }
    let key_cs = trim(&line_slice(line, ind, c));
    let rest = line_slice(line, c + 1, ll);
    let val_j = yvalue(lines, i, ind, &rest, fuel);
    let (val, j) = match val_j {
        Some(vj) => vj,
        None => {
            return None;
        },
    };
    if j <= i {
        return None;
    }
    let key = crate::text::string_of(key_cs.as_slice());
    let j2 = skip_blank(lines, j);
    if j2 < lines.len() && indent_from(&lines[j2], 0) == ind && !(ind < lines[j2].len()
        && lines[j2][ind] == '-') {
        if j2 <= i {
            return None;
        }
        match yinline_map(lines, j2, ind, fuel) {
            None => None,
            Some((mut rest_members, k)) => {
                let ghost srest = sp_yinline_map(
                    lines_view(lines@),
                    j2 as int,
                    ind as int,
                    fuel as nat,
                )->Some_0.0;
                let ghost skey = sp_trim(lines_view(lines@)[i as int].subrange(ind as int, c as int));
                let ghost sval = sp_yvalue(
                    lines_view(lines@),
                    i as int,
                    ind as int,
                    lines_view(lines@)[i as int].subrange(
                        c + 1,
                        lines_view(lines@)[i as int].len() as int,
                    ),
                    fuel as nat,
                )->Some_0.0;
                rest_members.insert(0, (key, val));
                proof {
                    let whole = seq![(skey, sval)] + srest;
                    assert(whole[0] == (skey, sval));
                    assert(forall|q: int|
                        1 <= q < whole.len() ==> #[trigger] whole[q] == srest[q - 1]);
                    assert(forall|q: int|
                        0 <= q < rest_members@.len() ==> whole[q] == (
                        rest_members@[q].0@,
                        rest_members@[q].1@,
                    ));
                }
                Some((rest_members, k))
            },
        }
    } else {
        let mut one: Vec<(String, JsonValue)> = Vec::new();
        one.push((key, val));
        Some((one, j))
    }
}

/// A found separator lies within the line, at or after where the scan began.
proof fn lemma_colon_bounds(line: Seq<char>, i: int, c: int)
    requires
        0 <= i,
        sp_find_colon(line, i) == Some(c),
    ensures
        i <= c < line.len(),
    decreases line.len() - i,
{
    if i < line.len() && !(line[i] == ':' && (i + 1 == line.len() || line[i + 1] == ' ')) {
        lemma_colon_bounds(line, i + 1, c);
    }
}

/// Parses a whole line-oriented text as one structured value. Returns the
/// value exactly when the text conforms to the grammar `spec_parse_yaml`
/// describes.
pub fn parse_yaml(text: &str) -> (r: Option<JsonValue>)
    ensures
        match spec_parse_yaml(text@) {
            None => r is None,
            Some(v) => r matches Some(jv) && jv@ == v,
        },
{
    let cs = crate::text::chars_of(text);
    let lines = split_lines(&cs);
    let fuel: usize = if lines.len() < usize::MAX {
        lines.len() + 1
    } else {
        usize::MAX
    };
    proof {
        broadcast use lemma_lines_view_len;
    }
    match yblock(&lines, 0, 0, fuel) {
        None => None,
        Some((v, j)) => {
            if skip_blank(&lines, j) == lines.len() {
                Some(v)
            } else {
                None
            }
        },
    }
}


/// The models of a value list, in order.
pub open spec fn lines_view_jv(v: Seq<JsonValue>) -> Seq<JsonSpec> {
    Seq::new(v.len(), |i: int| if 0 <= i < v.len() { v[i]@ } else { JsonSpec::Null })
}

/// Indexing the model of a value list gives the model of the value there, and
/// the lengths agree.
pub broadcast proof fn lemma_lines_view_jv(v: Seq<JsonValue>, i: int)
    requires
        0 <= i < v.len(),
    ensures
        (#[trigger] lines_view_jv(v)[i]) == v[i]@,
        lines_view_jv(v).len() == v.len(),
{
}

} // verus!
