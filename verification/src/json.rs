use vstd::prelude::*;

use crate::peers::opt_text;

verus! {

/// A JSON value. An object holds its members in the order its map walks them,
/// each key once; a number holds the text that writes it.
pub enum JsonValue {
    Null,
    Bool(bool),
    Number(String),
    Str(String),
    Array(Vec<JsonValue>),
    Object(Vec<JsonEntry>),
}

/// One member of a JSON object.
pub struct JsonEntry {
    pub key: String,
    pub value: JsonValue,
}

/// Whether `a` and `b` are the same JSON value.
pub open spec fn same_json(a: JsonValue, b: JsonValue) -> bool
    decreases a,
{
    match a {
        JsonValue::Null => b is Null,
        JsonValue::Bool(x) => b matches JsonValue::Bool(y) && x == y,
        JsonValue::Number(x) => b matches JsonValue::Number(y) && x@ == y@,
        JsonValue::Str(x) => b matches JsonValue::Str(y) && x@ == y@,
        JsonValue::Array(xs) => b matches JsonValue::Array(ys) && same_items(xs@, ys@),
        JsonValue::Object(xs) => b matches JsonValue::Object(ys) && same_entries(xs@, ys@),
    }
}

/// Whether no two members of `entries` have the same key.
pub open spec fn distinct_keys(entries: Seq<JsonEntry>) -> bool {
    forall|i: int, j: int| 0 <= i < j < entries.len() ==> (#[trigger] entries[i]).key@ != (#[trigger] entries[j]).key@
}

/// Whether every object in `v`, at any depth, holds each key once, as a JSON
/// map does.
pub open spec fn json_wf(v: JsonValue) -> bool
    decreases v,
{
    match v {
        JsonValue::Array(items) => items_wf(items@),
        JsonValue::Object(entries) => distinct_keys(entries@) && entries_wf(entries@),
        _ => true,
    }
}

/// Whether each of `xs` is well formed (see `json_wf`).
pub open spec fn items_wf(xs: Seq<JsonValue>) -> bool
    decreases xs,
{
    xs.len() == 0 || (json_wf(xs[0]) && items_wf(xs.drop_first()))
}

/// Whether the value of each of `xs` is well formed (see `json_wf`).
pub open spec fn entries_wf(xs: Seq<JsonEntry>) -> bool
    decreases xs,
{
    xs.len() == 0 || (json_wf(xs[0].value) && entries_wf(xs.drop_first()))
}

/// Whether two lists of JSON values are the same, item by item.
pub open spec fn same_items(xs: Seq<JsonValue>, ys: Seq<JsonValue>) -> bool
    decreases xs,
{
    if xs.len() == 0 {
        ys.len() == 0
    } else {
        ys.len() > 0 && same_json(xs[0], ys[0]) && same_items(xs.drop_first(), ys.drop_first())
    }
}

/// Whether two lists of object members are the same, member by member.
pub open spec fn same_entries(xs: Seq<JsonEntry>, ys: Seq<JsonEntry>) -> bool
    decreases xs,
{
    if xs.len() == 0 {
        ys.len() == 0
    } else {
        ys.len() > 0 && xs[0].key@ == ys[0].key@ && same_json(xs[0].value, ys[0].value)
            && same_entries(xs.drop_first(), ys.drop_first())
    }
}

} // verus!

verus! {

/// The position of the first member of `entries` whose key is `key`, or -1.
pub open spec fn key_index(entries: Seq<JsonEntry>, key: Seq<char>) -> int
    decreases entries.len(),
{
    if entries.len() == 0 {
        -1
    } else if entries[0].key@ == key {
        0
    } else {
        let r = key_index(entries.drop_first(), key);
        if r < 0 {
            -1
        } else {
            r + 1
        }
    }
}

/// The value of the first member of `entries` whose key is `key`.
pub open spec fn lookup(entries: Seq<JsonEntry>, key: Seq<char>) -> Option<JsonValue> {
    let i = key_index(entries, key);
    if i >= 0 {
        Some(entries[i].value)
    } else {
        None
    }
}

/// `key_index` is the first position whose key is `key`.
pub proof fn lemma_key_index(entries: Seq<JsonEntry>, key: Seq<char>, j: int)
    requires
        -1 <= j < entries.len(),
        j >= 0 ==> entries[j].key@ == key,
        forall|k: int| 0 <= k < entries.len() && (j < 0 || k < j) ==> (#[trigger] entries[k]).key@ != key,
    ensures
        key_index(entries, key) == j,
        -1 <= key_index(entries, key) < entries.len(),
    decreases entries.len(),
{
    if entries.len() > 0 && j != 0 {
        assert(entries[0].key@ != key);
        let t = entries.drop_first();
        assert forall|k: int| 0 <= k < t.len() && (j - 1 < 0 || k < j - 1) implies (#[trigger] t[k]).key@ != key by {
            assert(t[k] == entries[k + 1]);
        }
        if j > 0 {
            assert(t[j - 1] == entries[j]);
            lemma_key_index(t, key, j - 1);
        } else {
            lemma_key_index(t, key, -1);
        }
    }
}

/// What `serde_json::Value::get(key)` gives: the member `key` of an object.
pub open spec fn member(v: JsonValue, key: Seq<char>) -> Option<JsonValue> {
    match v {
        JsonValue::Object(entries) => lookup(entries@, key),
        _ => None,
    }
}

/// The text of a string or a number, which the node status shows as text.
pub open spec fn value_text(v: JsonValue) -> Option<Seq<char>> {
    match v {
        JsonValue::Str(t) => Some(t@),
        JsonValue::Number(t) => Some(t@),
        _ => None,
    }
}

/// The keys, as texts.
pub open spec fn key_texts(keys: Seq<&str>) -> Seq<Seq<char>> {
    keys.map_values(|k: &str| k@)
}

/// The text of the first of `keys` that `entries` hold with a string or number
/// value.
pub open spec fn first_key_text(entries: Seq<JsonEntry>, keys: Seq<Seq<char>>) -> Option<Seq<char>>
    decreases keys.len(),
{
    if keys.len() == 0 {
        None
    } else {
        match lookup(entries, keys[0]) {
            Some(v) if value_text(v) is Some => value_text(v),
            _ => first_key_text(entries, keys.drop_first()),
        }
    }
}

/// The text found for `keys` in `v`: in an object, the first of the keys that
/// the object holds with a string or number value; failing that, the first
/// member value (in map order) in which a search finds one; in an array, the
/// first item in which a search finds one.
pub open spec fn find_text(v: JsonValue, keys: Seq<Seq<char>>) -> Option<Seq<char>>
    decreases v,
{
    match v {
        JsonValue::Object(entries) => match first_key_text(entries@, keys) {
            Some(t) => Some(t),
            None => find_text_in_entries(entries@, keys),
        },
        JsonValue::Array(items) => find_text_in_items(items@, keys),
        _ => None,
    }
}

/// The text found for `keys` in the first member value of `entries` that has one.
pub open spec fn find_text_in_entries(entries: Seq<JsonEntry>, keys: Seq<Seq<char>>) -> Option<Seq<char>>
    decreases entries,
{
    if entries.len() == 0 {
        None
    } else {
        match find_text(entries[0].value, keys) {
            Some(t) => Some(t),
            None => find_text_in_entries(entries.drop_first(), keys),
        }
    }
}

/// The text found for `keys` in the first item of `items` that has one.
pub open spec fn find_text_in_items(items: Seq<JsonValue>, keys: Seq<Seq<char>>) -> Option<Seq<char>>
    decreases items,
{
    if items.len() == 0 {
        None
    } else {
        match find_text(items[0], keys) {
            Some(t) => Some(t),
            None => find_text_in_items(items.drop_first(), keys),
        }
    }
}

/// A copy of `v`.
pub fn copy_json(v: &JsonValue) -> (r: JsonValue)
    ensures
        same_json(*v, r),
    decreases v,
{
    match v {
        JsonValue::Null => JsonValue::Null,
        JsonValue::Bool(b) => JsonValue::Bool(*b),
        JsonValue::Number(t) => JsonValue::Number(t.clone()),
        JsonValue::Str(t) => JsonValue::Str(t.clone()),
        JsonValue::Array(items) => {
            let mut out: Vec<JsonValue> = Vec::new();
            let mut i: usize = 0;
            while i < items.len()
                invariant
                    *v == JsonValue::Array(*items),
                    i <= items.len(),
                    out@.len() == i,
                    forall|k: int| 0 <= k < i ==> same_json(items@[k], #[trigger] out@[k]),
                decreases items.len() - i,
            {
                proof {
                    assert(decreases_to!(*v => v->Array_0));
                    assert(decreases_to!(*items => items[i as int]));
                }
                let c = copy_json(&items[i]);
                out.push(c);
                i = i + 1;
            }
            proof {
                lemma_same_items(items@, out@);
            }
            JsonValue::Array(out)
        },
        JsonValue::Object(entries) => {
            let mut out: Vec<JsonEntry> = Vec::new();
            let mut i: usize = 0;
            while i < entries.len()
                invariant
                    *v == JsonValue::Object(*entries),
                    i <= entries.len(),
                    out@.len() == i,
                    forall|k: int| 0 <= k < i ==> (#[trigger] out@[k]).key@ == entries@[k].key@
                        && same_json(entries@[k].value, out@[k].value),
                decreases entries.len() - i,
            {
                proof {
                    assert(decreases_to!(*v => v->Object_0));
                    assert(decreases_to!(*entries => entries[i as int]));
                    assert(decreases_to!(entries[i as int] => entries[i as int].value));
                }
                let c = copy_json(&entries[i].value);
                out.push(JsonEntry { key: entries[i].key.clone(), value: c });
                i = i + 1;
            }
            proof {
                lemma_same_entries(entries@, out@);
            }
            JsonValue::Object(out)
        },
    }
}

proof fn lemma_same_items(xs: Seq<JsonValue>, ys: Seq<JsonValue>)
    requires
        xs.len() == ys.len(),
        forall|k: int| 0 <= k < xs.len() ==> same_json(xs[k], #[trigger] ys[k]),
    ensures
        same_items(xs, ys),
    decreases xs.len(),
{
    if xs.len() > 0 {
        assert forall|k: int| 0 <= k < xs.drop_first().len() implies same_json(
            xs.drop_first()[k],
            #[trigger] ys.drop_first()[k],
        ) by {
            assert(same_json(xs[k + 1], ys[k + 1]));
        }
        lemma_same_items(xs.drop_first(), ys.drop_first());
        assert(same_json(xs[0], ys[0]));
    }
}

proof fn lemma_same_entries(xs: Seq<JsonEntry>, ys: Seq<JsonEntry>)
    requires
        xs.len() == ys.len(),
        forall|k: int| 0 <= k < xs.len() ==> (#[trigger] ys[k]).key@ == xs[k].key@ && same_json(xs[k].value, ys[k].value),
    ensures
        same_entries(xs, ys),
    decreases xs.len(),
{
    if xs.len() > 0 {
        assert forall|k: int| 0 <= k < xs.drop_first().len() implies (#[trigger] ys.drop_first()[k]).key@
            == xs.drop_first()[k].key@ && same_json(xs.drop_first()[k].value, ys.drop_first()[k].value) by {
            assert(ys[k + 1].key@ == xs[k + 1].key@);
        }
        lemma_same_entries(xs.drop_first(), ys.drop_first());
        assert(ys[0].key@ == xs[0].key@);
    }
}

} // verus!

verus! {

/// Whether the texts `a` and `b` hold the same characters.
pub fn same_text(a: &str, b: &str) -> (r: bool)
    ensures
        r == (a@ == b@),
{
    let x = crate::text::chars_of(a);
    let y = crate::text::chars_of(b);
    if x.len() != y.len() {
        return false;
    }
    let mut i: usize = 0;
    while i < x.len()
        invariant
            x@ == a@,
            y@ == b@,
            x@.len() == y@.len(),
            i <= x.len(),
            forall|k: int| 0 <= k < i ==> x@[k] == y@[k],
        decreases x.len() - i,
    {
        if x[i] != y[i] {
            assert(x@[i as int] != y@[i as int]);
            return false;
        }
        i = i + 1;
    }
    assert(x@ =~= y@);
    true
}

/// The position of the first member of `entries` whose key is `key`.
pub fn find_key(entries: &Vec<JsonEntry>, key: &str) -> (r: Option<usize>)
    ensures
        match r {
            Some(j) => j as int == key_index(entries@, key@) && j < entries@.len() && entries@[j as int].key@
                == key@,
            None => key_index(entries@, key@) == -1,
        },
{
    let mut j: usize = 0;
    while j < entries.len()
        invariant
            j <= entries.len(),
            forall|k: int| 0 <= k < j ==> (#[trigger] entries@[k]).key@ != key@,
        decreases entries.len() - j,
    {
        if same_text(entries[j].key.as_str(), key) {
            proof {
                lemma_key_index(entries@, key@, j as int);
            }
            return Some(j);
        }
        j = j + 1;
    }
    proof {
        lemma_key_index(entries@, key@, -1);
    }
    None
}

/// The text of a string or a number value.
pub fn value_to_string(value: &JsonValue) -> (r: Option<String>)
    ensures
        opt_text(r) == value_text(*value),
{
    match value {
        JsonValue::Str(t) => Some(t.clone()),
        JsonValue::Number(t) => Some(t.clone()),
        _ => None,
    }
}

/// The text found for `keys` in `value`: see `find_text`.
pub fn find_string_by_keys(value: &JsonValue, keys: &[&str]) -> (r: Option<String>)
    ensures
        opt_text(r) == find_text(*value, key_texts(keys@)),
    decreases value,
{
    let ghost kt = key_texts(keys@);
    match value {
        JsonValue::Object(entries) => {
            let mut i: usize = 0;
            assert(kt.skip(0) =~= kt);
            while i < keys.len()
                invariant
                    *value == JsonValue::Object(*entries),
                    i <= keys.len(),
                    kt == key_texts(keys@),
                    first_key_text(entries@, kt) == first_key_text(entries@, kt.skip(i as int)),
                decreases keys.len() - i,
            {
                assert(kt.skip(i as int)[0] == keys@[i as int]@);
                assert(kt.skip(i as int).drop_first() =~= kt.skip(i + 1));
                match find_key(entries, keys[i]) {
                    Some(j) => {
                        assert(lookup(entries@, kt.skip(i as int)[0]) == Some(entries@[j as int].value));
                        let t = value_to_string(&entries[j].value);
                        if t.is_some() {
                            return t;
                        }
                    },
                    None => {},
                }
                i = i + 1;
            }
            assert(kt.skip(keys.len() as int).len() == 0);
            let mut j: usize = 0;
            assert(entries@.skip(0) =~= entries@);
            while j < entries.len()
                invariant
                    *value == JsonValue::Object(*entries),
                    j <= entries.len(),
                    kt == key_texts(keys@),
                    first_key_text(entries@, kt) is None,
                    find_text_in_entries(entries@, kt) == find_text_in_entries(entries@.skip(j as int), kt),
                decreases entries.len() - j,
            {
                proof {
                    assert(decreases_to!(*value => value->Object_0));
                    assert(decreases_to!(*entries => entries[j as int]));
                    assert(decreases_to!(entries[j as int] => entries[j as int].value));
                }
                assert(entries@.skip(j as int)[0] == entries@[j as int]);
                assert(entries@.skip(j as int).drop_first() =~= entries@.skip(j + 1));
                let t = find_string_by_keys(&entries[j].value, keys);
                if t.is_some() {
                    return t;
                }
                j = j + 1;
            }
            None
        },
        JsonValue::Array(items) => {
            let mut j: usize = 0;
            assert(items@.skip(0) =~= items@);
            while j < items.len()
                invariant
                    *value == JsonValue::Array(*items),
                    j <= items.len(),
                    kt == key_texts(keys@),
                    find_text_in_items(items@, kt) == find_text_in_items(items@.skip(j as int), kt),
                decreases items.len() - j,
            {
                proof {
                    assert(decreases_to!(*value => value->Array_0));
                    assert(decreases_to!(*items => items[j as int]));
                }
                assert(items@.skip(j as int)[0] == items@[j as int]);
                assert(items@.skip(j as int).drop_first() =~= items@.skip(j + 1));
                let t = find_string_by_keys(&items[j], keys);
                if t.is_some() {
                    return t;
                }
                j = j + 1;
            }
            None
        },
        _ => None,
    }
}

} // verus!

verus! {

/// Whether `text` is how the value `v` is shown: a string as its own text, any
/// other value as `show` writes it out.
pub open spec fn shown_text<W: Fn(JsonValue) -> String>(show: W, v: JsonValue, text: Seq<char>) -> bool {
    match v {
        JsonValue::Str(t) => text == t@,
        _ => exists|w: JsonValue, s: String| #[trigger] call_ensures(show, (w,), s) && same_json(v, w) && s@ == text,
    }
}

/// The value of the first of `keys` that `entries` hold.
pub open spec fn first_key_member(entries: Seq<JsonEntry>, keys: Seq<Seq<char>>) -> Option<JsonValue>
    decreases keys.len(),
{
    if keys.len() == 0 {
        None
    } else {
        match lookup(entries, keys[0]) {
            Some(v) => Some(v),
            None => first_key_member(entries, keys.drop_first()),
        }
    }
}

/// The value found for `keys` in `v`: in an object, the value of the first of
/// the keys that it holds; failing that, the first member value (in map order)
/// in which a search finds one; in an array, the first item in which a search
/// finds one.
pub open spec fn find_member(v: JsonValue, keys: Seq<Seq<char>>) -> Option<JsonValue>
    decreases v,
{
    match v {
        JsonValue::Object(entries) => match first_key_member(entries@, keys) {
            Some(t) => Some(t),
            None => find_member_in_entries(entries@, keys),
        },
        JsonValue::Array(items) => find_member_in_items(items@, keys),
        _ => None,
    }
}

/// The value found for `keys` in the first member value of `entries` that has one.
pub open spec fn find_member_in_entries(entries: Seq<JsonEntry>, keys: Seq<Seq<char>>) -> Option<JsonValue>
    decreases entries,
{
    if entries.len() == 0 {
        None
    } else {
        match find_member(entries[0].value, keys) {
            Some(t) => Some(t),
            None => find_member_in_entries(entries.drop_first(), keys),
        }
    }
}

/// The value found for `keys` in the first item of `items` that has one.
pub open spec fn find_member_in_items(items: Seq<JsonValue>, keys: Seq<Seq<char>>) -> Option<JsonValue>
    decreases items,
{
    if items.len() == 0 {
        None
    } else {
        match find_member(items[0], keys) {
            Some(t) => Some(t),
            None => find_member_in_items(items.drop_first(), keys),
        }
    }
}

/// Whether `r` is the text shown for the value that `find_member` finds, and
/// is absent where it finds none.
pub open spec fn shows_found<W: Fn(JsonValue) -> String>(show: W, r: Option<String>, found: Option<JsonValue>) -> bool {
    match (r, found) {
        (None, None) => true,
        (Some(s), Some(v)) => shown_text(show, v, s@),
        _ => false,
    }
}

/// The text shown for `v`: a string as it is, any other value as `show` writes
/// it out.
pub fn show_value<W: Fn(JsonValue) -> String>(v: &JsonValue, show: &W) -> (r: String)
    requires
        forall|w: JsonValue| call_requires(*show, (w,)),
    ensures
        shown_text(*show, *v, r@),
{
    match v {
        JsonValue::Str(t) => t.clone(),
        _ => {
            let w = copy_json(v);
            let ghost g = w;
            let r = show(w);
            assert(call_ensures(*show, (g,), r));
            r
        },
    }
}

/// The text shown for the value found for `keys` in `value` (see
/// `find_member` and `show_value`).
pub fn find_display_by_keys<W: Fn(JsonValue) -> String>(value: &JsonValue, keys: &[&str], show: &W) -> (r: Option<
    String,
>)
    requires
        forall|w: JsonValue| call_requires(*show, (w,)),
    ensures
        shows_found(*show, r, find_member(*value, key_texts(keys@))),
    decreases value,
{
    let ghost kt = key_texts(keys@);
    match value {
        JsonValue::Object(entries) => {
            let mut i: usize = 0;
            assert(kt.skip(0) =~= kt);
            while i < keys.len()
                invariant
                    *value == JsonValue::Object(*entries),
                    i <= keys.len(),
                    kt == key_texts(keys@),
                    forall|w: JsonValue| call_requires(*show, (w,)),
                    first_key_member(entries@, kt) == first_key_member(entries@, kt.skip(i as int)),
                decreases keys.len() - i,
            {
                assert(kt.skip(i as int)[0] == keys@[i as int]@);
                assert(kt.skip(i as int).drop_first() =~= kt.skip(i + 1));
                match find_key(entries, keys[i]) {
                    Some(j) => {
                        assert(lookup(entries@, kt.skip(i as int)[0]) == Some(entries@[j as int].value));
                        return Some(show_value(&entries[j].value, show));
                    },
                    None => {},
                }
                i = i + 1;
            }
            assert(kt.skip(keys.len() as int).len() == 0);
            let mut j: usize = 0;
            assert(entries@.skip(0) =~= entries@);
            while j < entries.len()
                invariant
                    *value == JsonValue::Object(*entries),
                    j <= entries.len(),
                    kt == key_texts(keys@),
                    forall|w: JsonValue| call_requires(*show, (w,)),
                    first_key_member(entries@, kt) is None,
                    find_member_in_entries(entries@, kt) == find_member_in_entries(entries@.skip(j as int), kt),
                decreases entries.len() - j,
            {
                proof {
                    assert(decreases_to!(*value => value->Object_0));
                    assert(decreases_to!(*entries => entries[j as int]));
                    assert(decreases_to!(entries[j as int] => entries[j as int].value));
                }
                assert(entries@.skip(j as int)[0] == entries@[j as int]);
                assert(entries@.skip(j as int).drop_first() =~= entries@.skip(j + 1));
                let t = find_display_by_keys(&entries[j].value, keys, show);
                if t.is_some() {
                    return t;
                }
                j = j + 1;
            }
            None
        },
        JsonValue::Array(items) => {
            let mut j: usize = 0;
            assert(items@.skip(0) =~= items@);
            while j < items.len()
                invariant
                    *value == JsonValue::Array(*items),
                    j <= items.len(),
                    kt == key_texts(keys@),
                    forall|w: JsonValue| call_requires(*show, (w,)),
                    find_member_in_items(items@, kt) == find_member_in_items(items@.skip(j as int), kt),
                decreases items.len() - j,
            {
                proof {
                    assert(decreases_to!(*value => value->Array_0));
                    assert(decreases_to!(*items => items[j as int]));
                }
                assert(items@.skip(j as int)[0] == items@[j as int]);
                assert(items@.skip(j as int).drop_first() =~= items@.skip(j + 1));
                let t = find_display_by_keys(&items[j], keys, show);
                if t.is_some() {
                    return t;
                }
                j = j + 1;
            }
            None
        },
        _ => None,
    }
}

/// The key `response`.
pub open spec fn response_key() -> Seq<char> {
    seq!['r', 'e', 's', 'p', 'o', 'n', 's', 'e']
}

/// The key `peers`.
pub open spec fn peers_key() -> Seq<char> {
    seq!['p', 'e', 'e', 'r', 's']
}

/// The part of an admin API answer that holds the answer: its `response` member
/// where it has one, else the whole value.
pub open spec fn response_of(v: JsonValue) -> JsonValue {
    match member(v, response_key()) {
        Some(x) => x,
        None => v,
    }
}

/// The `response` member of `value` where it has one, else `value` itself.
pub fn response_value(value: &JsonValue) -> (r: &JsonValue)
    ensures
        *r == response_of(*value),
{
    match value {
        JsonValue::Object(entries) => {
            let k = crate::text::chars_of("response");
            let key = crate::text::string_of(&k);
            proof {
                reveal_strlit("response");
                assert(key@ =~= response_key());
            }
            match find_key(entries, key.as_str()) {
                Some(j) => &entries[j].value,
                None => value,
            }
        },
        _ => value,
    }
}

/// How many records an admin API answer lists: the items of an array response;
/// for an object response, the items of its `peers` array where it has one,
/// else its members; otherwise none.
pub open spec fn record_count(v: JsonValue) -> nat {
    match response_of(v) {
        JsonValue::Array(items) => items@.len(),
        JsonValue::Object(entries) => match lookup(entries@, peers_key()) {
            Some(JsonValue::Array(items)) => items@.len(),
            _ => entries@.len(),
        },
        _ => 0,
    }
}

/// Law: the records that an admin API answer lists are the items of its
/// `peers` array: directly in the answer where it has no `response` member,
/// or in its `response` member.
pub proof fn law_record_count_is_peers_length(answer: JsonValue)
    ensures
        match answer {
            JsonValue::Object(es) => match (lookup(es@, "response"@), lookup(es@, "peers"@)) {
                (None, Some(JsonValue::Array(xs))) => record_count(answer) == xs@.len(),
                (Some(JsonValue::Object(ys)), _) => match lookup(ys@, "peers"@) {
                    Some(JsonValue::Array(xs)) => record_count(answer) == xs@.len(),
                    _ => true,
                },
                _ => true,
            },
            _ => true,
        },
{
    reveal_strlit("response");
    reveal_strlit("peers");
    assert("response"@ =~= response_key());
    assert("peers"@ =~= peers_key());
}

/// The number of records that the admin API answer `value` lists.
pub fn count_response_records(value: &JsonValue) -> (r: usize)
    ensures
        r == record_count(*value),
{
    match response_value(value) {
        JsonValue::Array(items) => items.len(),
        JsonValue::Object(entries) => {
            let k = crate::text::chars_of("peers");
            let key = crate::text::string_of(&k);
            proof {
                reveal_strlit("peers");
                assert(key@ =~= peers_key());
            }
            match find_key(entries, key.as_str()) {
                Some(j) => match &entries[j].value {
                    JsonValue::Array(items) => items.len(),
                    _ => entries.len(),
                },
                None => entries.len(),
            }
        },
        _ => 0,
    }
}

} // verus!

verus! {

/// The configuration key `Peers`.
pub open spec fn peers_setting_key() -> Seq<char> {
    seq!['P', 'e', 'e', 'r', 's']
}

/// Whether `v` is the JSON array of the texts `peers`, in order.
pub open spec fn lists_peers(v: JsonValue, peers: Seq<String>) -> bool {
    &&& v matches JsonValue::Array(items)
    &&& items@.len() == peers.len()
    &&& forall|k: int| 0 <= k < peers.len() ==> (#[trigger] items@[k] matches JsonValue::Str(s) && s@ == peers[k]@)
}

/// Whether the members `after` are `before` with `Peers` set to the list `peers`:
/// the member `Peers` gets the new value where there is one, else it is added
/// at the end; every other member stays as it was.
pub open spec fn with_peers(before: Seq<JsonEntry>, after: Seq<JsonEntry>, peers: Seq<String>) -> bool {
    let i = key_index(before, peers_setting_key());
    if i >= 0 {
        &&& after.len() == before.len()
        &&& forall|k: int| 0 <= k < before.len() && k != i ==> #[trigger] after[k] == before[k]
        &&& after[i].key@ == peers_setting_key()
        &&& lists_peers(after[i].value, peers)
    } else {
        &&& after.len() == before.len() + 1
        &&& forall|k: int| 0 <= k < before.len() ==> #[trigger] after[k] == before[k]
        &&& after[before.len() as int].key@ == peers_setting_key()
        &&& lists_peers(after[before.len() as int].value, peers)
    }
}

/// The JSON array of the texts `peers`.
pub fn peers_array(peers: &Vec<String>) -> (r: JsonValue)
    ensures
        lists_peers(r, peers@),
{
    let mut items: Vec<JsonValue> = Vec::new();
    let mut i: usize = 0;
    while i < peers.len()
        invariant
            i <= peers.len(),
            items@.len() == i,
            forall|k: int| 0 <= k < i ==> (#[trigger] items@[k] matches JsonValue::Str(s) && s@ == peers@[k]@),
        decreases peers.len() - i,
    {
        items.push(JsonValue::Str(peers[i].clone()));
        i = i + 1;
    }
    JsonValue::Array(items)
}

/// The normalised configuration `config` with its `Peers` set to `peers`; an
/// error where the configuration is not a JSON object.
pub fn set_config_peers(config: JsonValue, peers: &Vec<String>) -> (r: Result<JsonValue, String>)
    ensures
        match r {
            Ok(JsonValue::Object(after)) => config matches JsonValue::Object(before) && with_peers(
                before@,
                after@,
                peers@,
            ),
            Ok(_) => false,
            Err(e) => !(config is Object) && e@ == "Normalised config is not a JSON object."@,
        },
{
    match config {
        JsonValue::Object(entries) => {
            let ghost before = entries@;
            let mut entries = entries;
            let k = crate::text::chars_of("Peers");
            let key = crate::text::string_of(&k);
            proof {
                reveal_strlit("Peers");
                assert(key@ =~= peers_setting_key());
            }
            let arr = peers_array(peers);
            match find_key(&entries, key.as_str()) {
                Some(j) => {
                    let old = entries.remove(j);
                    entries.insert(j, JsonEntry { key: old.key, value: arr });
                    assert(entries@[j as int].key@ == before[j as int].key@);
                    assert forall|k: int| 0 <= k < before.len() && k != j implies #[trigger] entries@[k]
                        == before[k] by {
                        if k < j {
                        } else {
                        }
                    }
                    assert(with_peers(before, entries@, peers@));
                },
                None => {
                    entries.push(JsonEntry { key: key, value: arr });
                    assert(entries@[before.len() as int].key@ == peers_setting_key());
                    assert(key_index(before, peers_setting_key()) == -1);
                    assert(entries@.len() == before.len() + 1);
                    assert(forall|k: int| 0 <= k < before.len() ==> #[trigger] entries@[k] == before[k]);
                    assert(lists_peers(entries@[before.len() as int].value, peers@));
                    assert(with_peers(before, entries@, peers@));
                },
            }
            Ok(JsonValue::Object(entries))
        },
        _ => Err(crate::text::string_from("Normalised config is not a JSON object.")),
    }
}

} // verus!

verus! {

/// `key_index` gives the first position whose key is `key`, or -1 where none
/// has it.
pub proof fn lemma_key_index_meaning(entries: Seq<JsonEntry>, key: Seq<char>)
    ensures
        -1 <= key_index(entries, key) < entries.len(),
        key_index(entries, key) >= 0 ==> entries[key_index(entries, key)].key@ == key,
        forall|k: int|
            0 <= k < entries.len() && (key_index(entries, key) < 0 || k < key_index(entries, key))
                ==> (#[trigger] entries[k]).key@ != key,
    decreases entries.len(),
{
    if entries.len() > 0 && entries[0].key@ != key {
        let t = entries.drop_first();
        lemma_key_index_meaning(t, key);
        assert forall|k: int|
            0 <= k < entries.len() && (key_index(entries, key) < 0 || k < key_index(entries, key))
                implies (#[trigger] entries[k]).key@ != key by {
            if k > 0 {
                assert(entries[k] == t[k - 1]);
            }
        }
    }
}

/// After the peers are set, the configuration's `Peers` member reads back as
/// exactly the peers set, and every other member reads as it did before.
pub proof fn law_peers_setting_reads_back(
    before: Seq<JsonEntry>,
    after: Seq<JsonEntry>,
    peers: Seq<String>,
    key: Seq<char>,
)
    requires
        with_peers(before, after, peers),
    ensures
        lookup(after, peers_setting_key()) matches Some(v) && lists_peers(v, peers),
        key != peers_setting_key() ==> lookup(after, key) == lookup(before, key),
{
    let p = peers_setting_key();
    let i = key_index(before, p);
    lemma_key_index_meaning(before, p);
    lemma_key_index_meaning(before, key);
    let at = if i >= 0 { i } else { before.len() as int };
    assert forall|k: int| 0 <= k < after.len() && k < at implies (#[trigger] after[k]).key@ != p by {
        assert(after[k] == before[k]);
    }
    lemma_key_index(after, p, at);
    if key != p {
        let m = key_index(before, key);
        if m >= 0 {
            assert(m != at);
            assert(after[m] == before[m]);
            assert forall|k: int| 0 <= k < after.len() && k < m implies (#[trigger] after[k]).key@ != key by {
                if k != at {
                    assert(after[k] == before[k]);
                }
            }
            lemma_key_index(after, key, m);
        } else {
            assert forall|k: int| 0 <= k < after.len() implies (#[trigger] after[k]).key@ != key by {
                if k != at {
                    assert(after[k] == before[k]);
                }
            }
            lemma_key_index(after, key, -1);
        }
    }
}

/// `items_wf` holds exactly where each item is well formed.
pub proof fn lemma_items_wf(xs: Seq<JsonValue>)
    ensures
        items_wf(xs) <==> forall|k: int| 0 <= k < xs.len() ==> json_wf(#[trigger] xs[k]),
    decreases xs.len(),
{
    if xs.len() > 0 {
        lemma_items_wf(xs.drop_first());
        if forall|k: int| 0 <= k < xs.len() ==> json_wf(#[trigger] xs[k]) {
            assert forall|k: int| 0 <= k < xs.drop_first().len() implies json_wf(#[trigger] xs.drop_first()[k]) by {
                assert(xs.drop_first()[k] == xs[k + 1]);
            }
        }
        if items_wf(xs) {
            assert forall|k: int| 0 <= k < xs.len() implies json_wf(#[trigger] xs[k]) by {
                if k > 0 {
                    assert(xs[k] == xs.drop_first()[k - 1]);
                }
            }
        }
    }
}

/// `entries_wf` holds exactly where the value of each member is well formed.
pub proof fn lemma_entries_wf(xs: Seq<JsonEntry>)
    ensures
        entries_wf(xs) <==> forall|k: int| 0 <= k < xs.len() ==> json_wf(#[trigger] xs[k].value),
    decreases xs.len(),
{
    if xs.len() > 0 {
        lemma_entries_wf(xs.drop_first());
        if forall|k: int| 0 <= k < xs.len() ==> json_wf(#[trigger] xs[k].value) {
            assert forall|k: int| 0 <= k < xs.drop_first().len() implies json_wf(
                #[trigger] xs.drop_first()[k].value,
            ) by {
                assert(xs.drop_first()[k] == xs[k + 1]);
            }
        }
        if entries_wf(xs) {
            assert forall|k: int| 0 <= k < xs.len() implies json_wf(#[trigger] xs[k].value) by {
                if k > 0 {
                    assert(xs[k] == xs.drop_first()[k - 1]);
                }
            }
        }
    }
}

/// Setting the peers keeps the configuration well formed: it still holds each
/// key once, and every value in it is well formed.
pub proof fn law_peers_setting_keeps_config_well_formed(
    before: Seq<JsonEntry>,
    after: Seq<JsonEntry>,
    peers: Seq<String>,
)
    requires
        with_peers(before, after, peers),
        distinct_keys(before),
        entries_wf(before),
    ensures
        distinct_keys(after),
        entries_wf(after),
{
    let p = peers_setting_key();
    let i = key_index(before, p);
    lemma_key_index_meaning(before, p);
    let at = if i >= 0 { i } else { before.len() as int };
    lemma_entries_wf(before);
    lemma_entries_wf(after);
    let v = after[at].value;
    assert(json_wf(v)) by {
        let items = v->Array_0@;
        lemma_items_wf(items);
        assert forall|k: int| 0 <= k < items.len() implies json_wf(#[trigger] items[k]) by {
            assert(items[k] is Str);
        }
    }
    assert forall|k: int| 0 <= k < after.len() implies json_wf(#[trigger] after[k].value) by {
        if k != at {
            assert(after[k] == before[k]);
        }
    }
    assert forall|a: int, b: int| 0 <= a < b < after.len() implies (#[trigger] after[a]).key@ != (
    #[trigger] after[b]).key@ by {
        if a != at && b != at {
            assert(after[a] == before[a]);
            assert(after[b] == before[b]);
        } else if a == at {
            assert(after[b] == before[b]);
            if i < 0 {
                assert(b < before.len() + 1);
                assert(false);
            }
            assert(before[b].key@ != before[i].key@);
        } else {
            assert(after[a] == before[a]);
            if i >= 0 {
                assert(before[a].key@ != before[i].key@);
            } else {
                assert(before[a].key@ != p);
            }
        }
    }
}

/// Whether `parse` may have read the text `text` as the JSON value `out`, or
/// failed with the message in `out`.
pub open spec fn read_json<J: Fn(String) -> Result<JsonValue, String>>(
    parse: J,
    text: Seq<char>,
    out: Result<JsonValue, String>,
) -> bool {
    exists|t: String| t@ == text && #[trigger] call_ensures(parse, (t,), out)
}

} // verus!
