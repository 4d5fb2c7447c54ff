use vstd::prelude::*;

verus! {

/// A structured value: the in-memory form of the object encoding used for
/// tool-call arguments and tool parameter schemas. Numbers are integers; the
/// plan and tool formats have no fractional fields.
#[derive(Debug)]
pub enum JsonValue {
    Null,
    Bool(bool),
    Int(i64),
    Str(String),
    Arr(Vec<JsonValue>),
    Obj(Vec<(String, JsonValue)>),
}

/// The mathematical model of a structured value: what `JsonValue` denotes,
/// with sequences in place of vectors and strings.
pub enum JsonSpec {
    Null,
    Bool(bool),
    Int(int),
    Str(Seq<char>),
    Arr(Seq<JsonSpec>),
    Obj(Seq<(Seq<char>, JsonSpec)>),
}

/// What a structured value denotes.
pub open spec fn jv_view(v: JsonValue) -> JsonSpec
    decreases v,
{
    match v {
        JsonValue::Null => JsonSpec::Null,
        JsonValue::Bool(b) => JsonSpec::Bool(b),
        JsonValue::Int(i) => JsonSpec::Int(i as int),
        JsonValue::Str(s) => JsonSpec::Str(s@),
        JsonValue::Arr(items) => JsonSpec::Arr(
            Seq::new(
                items@.len(),
                |i: int|
                    if 0 <= i < items@.len() {
                        jv_view(items@[i])
                    } else {
                        JsonSpec::Null
                    },
            ),
        ),
        JsonValue::Obj(members) => JsonSpec::Obj(
            Seq::new(
                members@.len(),
                |i: int|
                    if 0 <= i < members@.len() {
                        (members@[i].0@, jv_view(members@[i].1))
                    } else {
                        (Seq::empty(), JsonSpec::Null)
                    },
            ),
        ),
    }
}

impl View for JsonValue {
    type V = JsonSpec;

    open spec fn view(&self) -> JsonSpec {
        jv_view(*self)
    }
}

impl Clone for JsonValue {
    fn clone(&self) -> (r: Self)
        ensures
            r@ == self@,
        decreases *self,
    {
        match self {
            JsonValue::Null => JsonValue::Null,
            JsonValue::Bool(b) => JsonValue::Bool(*b),
            JsonValue::Int(i) => JsonValue::Int(*i),
            JsonValue::Str(s) => JsonValue::Str(s.clone()),
            JsonValue::Arr(items) => {
                let mut out: Vec<JsonValue> = Vec::new();
                let mut i: usize = 0;
                while i < items.len()
                    invariant
                        i <= items.len(),
                        *self == JsonValue::Arr(*items),
                        out@.len() == i,
                        forall|k: int| 0 <= k < i ==> out@[k]@ == items@[k]@,
                    decreases items.len() - i,
                {
                    proof {
                        broadcast use vstd::std_specs::vec::group_vec_axioms;
                        assert(decreases_to!(*self => self->Arr_0));
                        assert(self->Arr_0 == *items);
                        assert(decreases_to!(*items => items@));
                        assert(decreases_to!(items@ => items@[i as int]));
                    }
                    out.push(items[i].clone());
                    i = i + 1;
                }
                let r = JsonValue::Arr(out);
                proof {
                    assert(r@ matches JsonSpec::Arr(s) && self@ matches JsonSpec::Arr(t)
                        && s =~= t);
                }
                r
            },
            JsonValue::Obj(members) => {
                let mut out: Vec<(String, JsonValue)> = Vec::new();
                let mut i: usize = 0;
                while i < members.len()
                    invariant
                        i <= members.len(),
                        *self == JsonValue::Obj(*members),
                        out@.len() == i,
                        forall|k: int|
                            0 <= k < i ==> out@[k].0@ == members@[k].0@ && out@[k].1@
                                == members@[k].1@,
                    decreases members.len() - i,
                {
                    proof {
                        broadcast use vstd::std_specs::vec::group_vec_axioms;
                        assert(decreases_to!(*self => self->Obj_0));
                        assert(self->Obj_0 == *members);
                        assert(decreases_to!(*members => members@));
                        assert(decreases_to!(members@ => members@[i as int]));
                        assert(decreases_to!(members@[i as int] => members@[i as int].1));
                    }
                    let key = members[i].0.clone();
                    let val = members[i].1.clone();
                    out.push((key, val));
                    i = i + 1;
                }
                let r = JsonValue::Obj(out);
                proof {
                    assert(r@ matches JsonSpec::Obj(s) && self@ matches JsonSpec::Obj(t)
                        && s =~= t);
                }
                r
            },
        }
    }
}

/// Whether a character is insignificant whitespace between tokens.
pub open spec fn is_ws(c: char) -> bool {
    c == ' ' || c == '\t' || c == '\n' || c == '\r'
}

/// Whether a character is a decimal digit.
pub open spec fn is_digit(c: char) -> bool {
    '0' <= c && c <= '9'
}

/// The value of a decimal digit.
pub open spec fn digit_val(c: char) -> int {
    c as int - '0' as int
}

/// The position of the first non-whitespace character at or after `i`.
pub open spec fn sp_ws(s: Seq<char>, i: int) -> int
    decreases s.len() - i,
{
    if 0 <= i < s.len() && is_ws(s[i]) {
        sp_ws(s, i + 1)
    } else {
        i
    }
}

/// Parses the remainder of a quoted string, starting just after the opening
/// quote: the decoded characters and the position after the closing quote.
/// Escapes cover quote, backslash, slash, `n`, `t` and `r`.
pub open spec fn sp_string_rest(s: Seq<char>, i: int) -> Option<(Seq<char>, int)>
    decreases s.len() - i,
{
    if i < 0 || i >= s.len() {
        None
    } else if s[i] == '"' {
        Some((Seq::empty(), i + 1))
    } else if s[i] == '\\' {
        if i + 1 < s.len() {
            let e = s[i + 1];
            let decoded: Option<char> = if e == '"' {
                Some('"')
            } else if e == '\\' {
                Some('\\')
            } else if e == '/' {
                Some('/')
            } else if e == 'n' {
                Some('\n')
            } else if e == 't' {
                Some('\t')
            } else if e == 'r' {
                Some('\r')
            } else {
                None
            };
            match decoded {
                Some(c) => match sp_string_rest(s, i + 2) {
                    Some((rest, j)) => Some((seq![c] + rest, j)),
                    None => None,
                },
                None => None,
            }
        } else {
            None
        }
    } else {
        match sp_string_rest(s, i + 1) {
            Some((rest, j)) => Some((seq![s[i]] + rest, j)),
            None => None,
        }
    }
}

/// Accumulates a run of decimal digits left to right onto `acc`, refusing a
/// magnitude beyond 2^63: the accumulated value and the position after the
/// run.
pub open spec fn sp_digits(s: Seq<char>, i: int, acc: int) -> Option<(int, int)>
    decreases s.len() - i,
{
    if 0 <= i < s.len() && is_digit(s[i]) {
        let acc2 = acc * 10 + digit_val(s[i]);
        if acc2 > 0x8000_0000_0000_0000 {
            None
        } else {
            sp_digits(s, i + 1, acc2)
        }
    } else {
        Some((acc, i))
    }
}

/// Parses an integer literal at `i`: its value and the position after it.
pub open spec fn sp_int(s: Seq<char>, i: int) -> Option<(int, int)> {
    if 0 <= i < s.len() && s[i] == '-' {
        if i + 1 < s.len() && is_digit(s[i + 1]) {
            match sp_digits(s, i + 1, 0) {
                Some((mag, j)) => Some((-mag, j)),
                None => None,
            }
        } else {
            None
        }
    } else if 0 <= i < s.len() && is_digit(s[i]) {
        match sp_digits(s, i, 0) {
            Some((mag, j)) => if mag > 0x7FFF_FFFF_FFFF_FFFF {
                None
            } else {
                Some((mag, j))
            },
            None => None,
        }
    } else {
        None
    }
}

/// Parses a value at `i` (no leading whitespace): the value and the position
/// after it. The fuel bounds nesting; the top level passes one more than the
/// text's length, which any input the grammar accepts stays within.
pub open spec fn sp_value(s: Seq<char>, i: int, fuel: nat) -> Option<(JsonSpec, int)>
    decreases fuel,
{
    if fuel == 0 {
        None
    } else if i < 0 || i >= s.len() {
        None
    } else if s[i] == '"' {
        match sp_string_rest(s, i + 1) {
            Some((cs, j)) => Some((JsonSpec::Str(cs), j)),
            None => None,
        }
    } else if s[i] == '{' {
        let j = sp_ws(s, i + 1);
        if j < s.len() && s[j] == '}' {
            Some((JsonSpec::Obj(Seq::empty()), j + 1))
        } else {
            match sp_members(s, j, (fuel - 1) as nat) {
                Some((ms, k)) => Some((JsonSpec::Obj(ms), k)),
                None => None,
            }
        }
    } else if s[i] == '[' {
        let j = sp_ws(s, i + 1);
        if j < s.len() && s[j] == ']' {
            Some((JsonSpec::Arr(Seq::empty()), j + 1))
        } else {
            match sp_items(s, j, (fuel - 1) as nat) {
                Some((vs, k)) => Some((JsonSpec::Arr(vs), k)),
                None => None,
            }
        }
    } else if s[i] == 't' {
        if i + 4 <= s.len() && s[i + 1] == 'r' && s[i + 2] == 'u' && s[i + 3] == 'e' {
            Some((JsonSpec::Bool(true), i + 4))
        } else {
            None
        }
    } else if s[i] == 'f' {
        if i + 5 <= s.len() && s[i + 1] == 'a' && s[i + 2] == 'l' && s[i + 3] == 's' && s[i + 4]
            == 'e' {
            Some((JsonSpec::Bool(false), i + 5))
        } else {
            None
        }
    } else if s[i] == 'n' {
        if i + 4 <= s.len() && s[i + 1] == 'u' && s[i + 2] == 'l' && s[i + 3] == 'l' {
            Some((JsonSpec::Null, i + 4))
        } else {
            None
        }
    } else if s[i] == '-' || is_digit(s[i]) {
        match sp_int(s, i) {
            Some((v, j)) => Some((JsonSpec::Int(v), j)),
            None => None,
        }
    } else {
        None
    }
}

/// Parses the members of an object from the first key (no leading whitespace,
/// not the empty object): the members and the position after the closing
/// brace.
pub open spec fn sp_members(s: Seq<char>, i: int, fuel: nat) -> Option<
    (Seq<(Seq<char>, JsonSpec)>, int),
>
    decreases fuel,
{
    if fuel == 0 {
        None
    } else if i < 0 || i >= s.len() || s[i] != '"' {
        None
    } else {
        match sp_string_rest(s, i + 1) {
            Some((key, j)) => {
                let j2 = sp_ws(s, j);
                if j2 < s.len() && s[j2] == ':' {
                    let j3 = sp_ws(s, j2 + 1);
                    match sp_value(s, j3, (fuel - 1) as nat) {
                        Some((val, j4)) => {
                            let j5 = sp_ws(s, j4);
                            if j5 < s.len() && s[j5] == ',' {
                                let j6 = sp_ws(s, j5 + 1);
                                match sp_members(s, j6, (fuel - 1) as nat) {
                                    Some((rest, j7)) => Some((seq![(key, val)] + rest, j7)),
                                    None => None,
                                }
                            } else if j5 < s.len() && s[j5] == '}' {
                                Some((seq![(key, val)], j5 + 1))
                            } else {
                                None
                            }
                        },
                        None => None,
                    }
                } else {
                    None
                }
            },
            None => None,
        }
    }
}

/// Parses the items of an array from the first item (no leading whitespace,
/// not the empty array): the items and the position after the closing bracket.
pub open spec fn sp_items(s: Seq<char>, i: int, fuel: nat) -> Option<(Seq<JsonSpec>, int)>
    decreases fuel,
{
    if fuel == 0 {
        None
    } else {
        match sp_value(s, i, (fuel - 1) as nat) {
            Some((val, j)) => {
                let j2 = sp_ws(s, j);
                if j2 < s.len() && s[j2] == ',' {
                    let j3 = sp_ws(s, j2 + 1);
                    match sp_items(s, j3, (fuel - 1) as nat) {
                        Some((rest, j4)) => Some((seq![val] + rest, j4)),
                        None => None,
                    }
                } else if j2 < s.len() && s[j2] == ']' {
                    Some((seq![val], j2 + 1))
                } else {
                    None
                }
            },
            None => None,
        }
    }
}

/// What a whole text denotes: one value, with whitespace allowed around it and
/// nothing else before or after. The text's length serves as the fuel, which
/// bounds nesting; it suffices for any nesting the text itself can spell out.
pub open spec fn spec_parse_json(s: Seq<char>) -> Option<JsonSpec> {
    let i0 = sp_ws(s, 0);
    match sp_value(s, i0, s.len()) {
        Some((v, j)) => if sp_ws(s, j) == s.len() {
            Some(v)
        } else {
            None
        },
        None => None,
    }
}

/// Whether an executable parse outcome denotes the modelled one.
pub open spec fn value_matches(r: Option<(JsonValue, usize)>, s: Option<(JsonSpec, int)>) -> bool {
    match r {
        None => s is None,
        Some((v, j)) => s matches Some((sv, sj)) && v@ == sv && j == sj,
    }
}

fn ws(s: &Vec<char>, i: usize) -> (r: usize)
    ensures
        r == sp_ws(s@, i as int),
        i <= r,
        i <= s@.len() ==> r <= s@.len(),
{
    let mut k = i;
    while k < s.len() && (s[k] == ' ' || s[k] == '\t' || s[k] == '\n' || s[k] == '\r')
        invariant
            i <= k,
            k <= s@.len() || k == i,
            sp_ws(s@, i as int) == sp_ws(s@, k as int),
        decreases s@.len() - k,
    {
        k = k + 1;
    }
    k
}

fn string_rest(s: &Vec<char>, i: usize) -> (r: Option<(Vec<char>, usize)>)
    ensures
        match r {
            None => sp_string_rest(s@, i as int) is None,
            Some((cs, j)) => sp_string_rest(s@, i as int) matches Some((sc, sj)) && cs@ == sc && j
                == sj,
        },
    decreases s@.len() - i,
{
    if i >= s.len() {
        return None;
    }
    let c = s[i];
    if c == '"' {
        let empty: Vec<char> = Vec::new();
        return Some((empty, i + 1));
    }
    if c == '\\' {
        if i + 1 < s.len() {
            let e = s[i + 1];
            let decoded: Option<char> = if e == '"' {
                Some('"')
            } else if e == '\\' {
                Some('\\')
            } else if e == '/' {
                Some('/')
            } else if e == 'n' {
                Some('\n')
            } else if e == 't' {
                Some('\t')
            } else if e == 'r' {
                Some('\r')
            } else {
                None
            };
            match decoded {
                Some(d) => match string_rest(s, i + 2) {
                    Some((mut rest, j)) => {
                        rest.insert(0, d);
                        proof {
                            let (sc, _sj) = sp_string_rest(s@, i + 2 as int)->Some_0;
                            assert(rest@ =~= seq![d] + sc);
                        }
                        Some((rest, j))
                    },
                    None => None,
                },
                None => None,
            }
        } else {
            None
        }
    } else {
        match string_rest(s, i + 1) {
            Some((mut rest, j)) => {
                rest.insert(0, c);
                proof {
                    let (sc, _sj) = sp_string_rest(s@, i + 1 as int)->Some_0;
                    assert(rest@ =~= seq![c] + sc);
                }
                Some((rest, j))
            },
            None => None,
        }
    }
}

fn digits(s: &Vec<char>, i: usize, acc: u64) -> (r: Option<(u64, usize)>)
    requires
        acc <= 0x8000_0000_0000_0000,
    ensures
        match r {
            None => sp_digits(s@, i as int, acc as int) is None,
            Some((v, j)) => sp_digits(s@, i as int, acc as int) matches Some((sv, sj)) && v == sv
                && j == sj && v <= 0x8000_0000_0000_0000,
        },
    decreases s@.len() - i,
{
    if i < s.len() && '0' <= s[i] && s[i] <= '9' {
        let d: u64 = (s[i] as u32 - '0' as u32) as u64;
        let wide: u128 = (acc as u128) * 10 + (d as u128);
        if wide > 0x8000_0000_0000_0000 {
            None
        } else {
            digits(s, i + 1, wide as u64)
        }
    } else {
        Some((acc, i))
    }
}

pub(crate) fn int_lit(s: &Vec<char>, i: usize) -> (r: Option<(i64, usize)>)
    ensures
        match r {
            None => sp_int(s@, i as int) is None,
            Some((v, j)) => sp_int(s@, i as int) matches Some((sv, sj)) && v == sv && j == sj,
        },
{
    if i < s.len() && s[i] == '-' {
        if i + 1 < s.len() && '0' <= s[i + 1] && s[i + 1] <= '9' {
            match digits(s, i + 1, 0) {
                Some((mag, j)) => {
                    if mag == 0x8000_0000_0000_0000 {
                        Some((i64::MIN, j))
                    } else {
                        Some((-(mag as i64), j))
                    }
                },
                None => None,
            }
        } else {
            None
        }
    } else if i < s.len() && '0' <= s[i] && s[i] <= '9' {
        match digits(s, i, 0) {
            Some((mag, j)) => {
                if mag > 0x7FFF_FFFF_FFFF_FFFF {
                    None
                } else {
                    Some((mag as i64, j))
                }
            },
            None => None,
        }
    } else {
        None
    }
}

#[verifier::rlimit(60)]
fn value_at(s: &Vec<char>, i: usize, fuel: usize) -> (r: Option<(JsonValue, usize)>)
    ensures
        value_matches(r, sp_value(s@, i as int, fuel as nat)),
    decreases fuel,
{
    if fuel == 0 {
        return None;
    }
    if i >= s.len() {
        return None;
    }
    let c = s[i];
    if c == '"' {
        match string_rest(s, i + 1) {
            Some((cs, j)) => Some((JsonValue::Str(crate::text::string_of(cs.as_slice())), j)),
            None => None,
        }
    } else if c == '{' {
        let j = ws(s, i + 1);
        if j < s.len() && s[j] == '}' {
            let empty: Vec<(String, JsonValue)> = Vec::new();
            let r = JsonValue::Obj(empty);
            proof {
                assert(r@ matches JsonSpec::Obj(ms) && ms =~= Seq::<
                    (Seq<char>, JsonSpec),
                >::empty());
            }
            Some((r, j + 1))
        } else {
            match members_at(s, j, fuel - 1) {
                Some((ms, k)) => {
                    let ghost sms = sp_members(s@, j as int, (fuel - 1) as nat)->Some_0.0;
                    let ghost gms = ms@;
                    let r = JsonValue::Obj(ms);
                    proof {
                        lemma_obj_view(r);
                        assert(r->Obj_0@ == gms);
                        assert(r@->Obj_0 =~= sms);
                    }
                    Some((r, k))
                },
                None => None,
            }
        }
    } else if c == '[' {
        let j = ws(s, i + 1);
        if j < s.len() && s[j] == ']' {
            let empty: Vec<JsonValue> = Vec::new();
            let r = JsonValue::Arr(empty);
            proof {
                assert(r@ matches JsonSpec::Arr(x) && x =~= Seq::<JsonSpec>::empty());
            }
            Some((r, j + 1))
        } else {
            match items_at(s, j, fuel - 1) {
                Some((vs, k)) => {
                    let ghost svs = sp_items(s@, j as int, (fuel - 1) as nat)->Some_0.0;
                    let ghost gvs = vs@;
                    let r = JsonValue::Arr(vs);
                    proof {
                        lemma_arr_view(r);
                        assert(r->Arr_0@ == gvs);
                        assert(r@->Arr_0 =~= svs);
                    }
                    Some((r, k))
                },
                None => None,
            }
        }
    } else if c == 't' {
        if s.len() - i >= 4 && s[i + 1] == 'r' && s[i + 2] == 'u' && s[i + 3] == 'e' {
            Some((JsonValue::Bool(true), i + 4))
        } else {
            None
        }
    } else if c == 'f' {
        if s.len() - i >= 5 && s[i + 1] == 'a' && s[i + 2] == 'l' && s[i + 3] == 's' && s[i + 4]
            == 'e' {
            Some((JsonValue::Bool(false), i + 5))
        } else {
            None
        }
    } else if c == 'n' {
        if s.len() - i >= 4 && s[i + 1] == 'u' && s[i + 2] == 'l' && s[i + 3] == 'l' {
            Some((JsonValue::Null, i + 4))
        } else {
            None
        }
    } else if c == '-' || ('0' <= c && c <= '9') {
        match int_lit(s, i) {
            Some((v, j)) => Some((JsonValue::Int(v), j)),
            None => None,
        }
    } else {
        None
    }
}

fn members_at(s: &Vec<char>, i: usize, fuel: usize) -> (r: Option<
    (Vec<(String, JsonValue)>, usize),
>)
    ensures
        match r {
            None => sp_members(s@, i as int, fuel as nat) is None,
            Some((ms, j)) => sp_members(s@, i as int, fuel as nat) matches Some((sms, sj)) && j
                == sj && ms@.len() == sms.len() && (forall|k: int|
                0 <= k < ms@.len() ==> #[trigger] sms[k] == (ms@[k].0@, ms@[k].1@)),
        },
    decreases fuel,
{
    if fuel == 0 {
        return None;
    }
    if i >= s.len() {
        return None;
    }
    if s[i] != '"' {
        return None;
    }
    match string_rest(s, i + 1) {
        Some((key_cs, j)) => {
            let j2 = ws(s, j);
            if j2 < s.len() && s[j2] == ':' {
                let j3 = ws(s, j2 + 1);
                match value_at(s, j3, fuel - 1) {
                    Some((val, j4)) => {
                        let key = crate::text::string_of(key_cs.as_slice());
                        let j5 = ws(s, j4);
                        if j5 < s.len() && s[j5] == ',' {
                            let j6 = ws(s, j5 + 1);
                            match members_at(s, j6, fuel - 1) {
                                Some((mut rest, j7)) => {
                                    let ghost srest = sp_members(
                                        s@,
                                        j6 as int,
                                        (fuel - 1) as nat,
                                    )->Some_0.0;
                                    let ghost skey = sp_string_rest(s@, i + 1 as int)->Some_0.0;
                                    let ghost sval = sp_value(
                                        s@,
                                        j3 as int,
                                        (fuel - 1) as nat,
                                    )->Some_0.0;
                                    rest.insert(0, (key, val));
                                    proof {
                                        let whole = seq![(skey, sval)] + srest;
                                        assert(whole[0] == (skey, sval));
                                        assert(forall|k: int|
                                            1 <= k < whole.len() ==> #[trigger] whole[k]
                                                == srest[k - 1]);
                                        assert(forall|k: int|
                                            0 <= k < rest@.len() ==> whole[k] == (
                                            rest@[k].0@,
                                            rest@[k].1@,
                                        ));
                                    }
                                    Some((rest, j7))
                                },
                                None => None,
                            }
                        } else if j5 < s.len() && s[j5] == '}' {
                            let mut one: Vec<(String, JsonValue)> = Vec::new();
                            let ghost skey = sp_string_rest(s@, i + 1 as int)->Some_0.0;
                            let ghost sval = sp_value(s@, j3 as int, (fuel - 1) as nat)->Some_0.0;
                            one.push((key, val));
                            proof {
                                let whole = seq![(skey, sval)];
                                assert(whole[0] == (skey, sval));
                            }
                            Some((one, j5 + 1))
                        } else {
                            None
                        }
                    },
                    None => None,
                }
            } else {
                None
            }
        },
        None => None,
    }
}

fn items_at(s: &Vec<char>, i: usize, fuel: usize) -> (r: Option<(Vec<JsonValue>, usize)>)
    ensures
        match r {
            None => sp_items(s@, i as int, fuel as nat) is None,
            Some((vs, j)) => sp_items(s@, i as int, fuel as nat) matches Some((svs, sj)) && j == sj
                && vs@.len() == svs.len() && (forall|k: int|
                0 <= k < vs@.len() ==> #[trigger] svs[k] == vs@[k]@),
        },
    decreases fuel,
{
    if fuel == 0 {
        return None;
    }
    match value_at(s, i, fuel - 1) {
        Some((val, j)) => {
            let j2 = ws(s, j);
            if j2 < s.len() && s[j2] == ',' {
                let j3 = ws(s, j2 + 1);
                match items_at(s, j3, fuel - 1) {
                    Some((mut rest, j4)) => {
                        let ghost srest = sp_items(s@, j3 as int, (fuel - 1) as nat)->Some_0.0;
                        let ghost sval = sp_value(s@, i as int, (fuel - 1) as nat)->Some_0.0;
                        rest.insert(0, val);
                        proof {
                            let whole = seq![sval] + srest;
                            assert(whole[0] == sval);
                            assert(forall|k: int|
                                1 <= k < whole.len() ==> #[trigger] whole[k] == srest[k - 1]);
                            assert(forall|k: int|
                                0 <= k < rest@.len() ==> whole[k] == rest@[k]@);
                        }
                        Some((rest, j4))
                    },
                    None => None,
                }
            } else if j2 < s.len() && s[j2] == ']' {
                let mut one: Vec<JsonValue> = Vec::new();
                let ghost sval = sp_value(s@, i as int, (fuel - 1) as nat)->Some_0.0;
                one.push(val);
                proof {
                    let whole = seq![sval];
                    assert(whole[0] == sval);
                }
                Some((one, j2 + 1))
            } else {
                None
            }
        },
        None => None,
    }
}

/// Parses a whole text as one structured value. Returns the value exactly when
/// the text conforms to the grammar `spec_parse_json` describes.
pub fn parse_json(text: &str) -> (r: Option<JsonValue>)
    ensures
        match spec_parse_json(text@) {
            None => r is None,
            Some(v) => r matches Some(jv) && jv@ == v,
        },
{
    let cs = crate::text::chars_of(text);
    let i0 = ws(&cs, 0);
    match value_at(&cs, i0, cs.len()) {
        Some((v, j)) => {
            if ws(&cs, j) == cs.len() {
                Some(v)
            } else {
                None
            }
        },
        None => None,
    }
}

/// What the model of an object value holds, member by member.
pub proof fn lemma_obj_view(v: JsonValue)
    requires
        v is Obj,
    ensures
        v@ is Obj,
        v@->Obj_0.len() == v->Obj_0@.len(),
        forall|q: int|
            0 <= q < v->Obj_0@.len() ==> #[trigger] v@->Obj_0[q] == (
            v->Obj_0@[q].0@,
            v->Obj_0@[q].1@,
        ),
{
}

/// What the model of an array value holds, item by item.
pub proof fn lemma_arr_view(v: JsonValue)
    requires
        v is Arr,
    ensures
        v@ is Arr,
        v@->Arr_0.len() == v->Arr_0@.len(),
        forall|q: int| 0 <= q < v->Arr_0@.len() ==> #[trigger] v@->Arr_0[q] == v->Arr_0@[q]@,
{
}

} // verus!
