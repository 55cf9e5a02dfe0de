use crate::decimal::{decimal_digits, decimal_string};
use vstd::prelude::*;

verus! {

/// A JSON document as a tree of plain values.
#[derive(Debug, PartialEq, Eq)]
pub enum Json {
    Null,
    Bool(bool),
    /// A number that is a non-negative integer.
    UInt(u64),
    /// A number that is an integer.
    Int(i64),
    /// A number that is no integer of 64 bits, as the numeral it was written with.
    Decimal(String),
    Str(String),
    Array(Vec<Json>),
    /// The members in the order in which they are written.
    Object(Vec<(String, Json)>),
}

/// What a `Json` holds, as mathematical values.
pub enum JsonView {
    Null,
    Bool(bool),
    UInt(u64),
    Int(i64),
    Decimal(Seq<char>),
    Str(Seq<char>),
    Array(Seq<JsonView>),
    Object(Seq<(Seq<char>, JsonView)>),
}

impl View for Json {
    type V = JsonView;

    open spec fn view(&self) -> JsonView
        decreases self,
    {
        match self {
            Json::Null => JsonView::Null,
            Json::Bool(b) => JsonView::Bool(*b),
            Json::UInt(n) => JsonView::UInt(*n),
            Json::Int(n) => JsonView::Int(*n),
            Json::Decimal(t) => JsonView::Decimal(t@),
            Json::Str(s) => JsonView::Str(s@),
            Json::Array(items) => JsonView::Array(items_view(items@, items@.len())),
            Json::Object(members) => JsonView::Object(members_view(members@, members@.len())),
        }
    }
}

/// The views of the first `n` of `items`.
pub open spec fn items_view(items: Seq<Json>, n: nat) -> Seq<JsonView>
    decreases items, n,
{
    if n == 0 || n > items.len() {
        Seq::empty()
    } else {
        items_view(items, (n - 1) as nat).push(items[n - 1]@)
    }
}

/// The views of the first `n` of `members`.
pub open spec fn members_view(members: Seq<(String, Json)>, n: nat) -> Seq<(Seq<char>, JsonView)>
    decreases members, n,
{
    if n == 0 || n > members.len() {
        Seq::empty()
    } else {
        members_view(members, (n - 1) as nat).push((members[n - 1].0@, members[n - 1].1@))
    }
}

/// The lower-case hexadecimal digit of a value below sixteen.
pub open spec fn hex_lower(d: nat) -> char
    recommends
        d < 16,
{
    if d < 10 {
        crate::decimal::digit_char(d)
    } else if d == 10 {
        'a'
    } else if d == 11 {
        'b'
    } else if d == 12 {
        'c'
    } else if d == 13 {
        'd'
    } else if d == 14 {
        'e'
    } else {
        'f'
    }
}

/// How one character of a string is written inside a JSON string literal: the quote
/// and the backslash behind a backslash, the control characters by their short
/// escape where JSON has one and as `\u00xx` where it has none, all others as they are.
pub open spec fn escaped_char(c: char) -> Seq<char> {
    if c == '"' {
        seq!['\\', '"']
    } else if c == '\\' {
        seq!['\\', '\\']
    } else if c == '\u{8}' {
        seq!['\\', 'b']
    } else if c == '\u{9}' {
        seq!['\\', 't']
    } else if c == '\u{a}' {
        seq!['\\', 'n']
    } else if c == '\u{c}' {
        seq!['\\', 'f']
    } else if c == '\u{d}' {
        seq!['\\', 'r']
    } else if (c as u32) < 0x20 {
        seq!['\\', 'u', '0', '0', hex_lower((c as u32 / 16) as nat), hex_lower((c as u32 % 16) as nat)]
    } else {
        seq![c]
    }
}

/// The characters of `s`, each written as a JSON string literal holds it.
pub open spec fn escaped(s: Seq<char>) -> Seq<char>
    decreases s.len(),
{
    if s.len() == 0 {
        Seq::empty()
    } else {
        escaped(s.drop_last()) + escaped_char(s.last())
    }
}

/// The JSON string literal for `s`.
pub open spec fn json_quoted(s: Seq<char>) -> Seq<char> {
    "\""@ + escaped(s) + "\""@
}

/// The decimal numeral of an integer, with a minus sign where it is negative.
pub open spec fn integer_digits(n: int) -> Seq<char> {
    if n < 0 {
        "-"@ + decimal_digits((-n) as nat)
    } else {
        decimal_digits(n as nat)
    }
}

/// The compact JSON text of a document: no white space, the members of an object
/// in the order they are held in.
pub open spec fn json_text(j: JsonView) -> Seq<char>
    decreases j,
{
    match j {
        JsonView::Null => "null"@,
        JsonView::Bool(b) => if b {
            "true"@
        } else {
            "false"@
        },
        JsonView::UInt(n) => decimal_digits(n as nat),
        JsonView::Int(n) => integer_digits(n as int),
        JsonView::Decimal(t) => t,
        JsonView::Str(s) => json_quoted(s),
        JsonView::Array(items) => "["@ + joined_items(items, items.len()) + "]"@,
        JsonView::Object(members) => "{"@ + joined_members(members, members.len()) + "}"@,
    }
}

/// The texts of the first `n` of `items`, with a comma between two of them.
pub open spec fn joined_items(items: Seq<JsonView>, n: nat) -> Seq<char>
    decreases items, n,
{
    if n == 0 || n > items.len() {
        Seq::empty()
    } else if n == 1 {
        json_text(items[0])
    } else {
        joined_items(items, (n - 1) as nat) + ","@ + json_text(items[n - 1])
    }
}

/// The text of one member of an object: its quoted name, a colon, its value.
pub open spec fn member_text(name: Seq<char>, value_text: Seq<char>) -> Seq<char> {
    json_quoted(name) + ":"@ + value_text
}

/// The texts of the first `n` of `members`, with a comma between two of them.
pub open spec fn joined_members(members: Seq<(Seq<char>, JsonView)>, n: nat) -> Seq<char>
    decreases members, n,
{
    if n == 0 || n > members.len() {
        Seq::empty()
    } else if n == 1 {
        member_text(members[0].0, json_text(members[0].1))
    } else {
        joined_members(members, (n - 1) as nat) + ","@ + member_text(
            members[n - 1].0,
            json_text(members[n - 1].1),
        )
    }
}

/// `items_view` keeps the length and views each item in its place.
pub proof fn lemma_items_view(items: Seq<Json>, n: nat)
    requires
        n <= items.len(),
    ensures
        items_view(items, n).len() == n,
        forall|i: int| 0 <= i < n ==> #[trigger] items_view(items, n)[i] == items[i]@,
    decreases n,
{
    if n > 0 {
        lemma_items_view(items, (n - 1) as nat);
        assert(items_view(items, n) == items_view(items, (n - 1) as nat).push(items[n - 1]@));
    } else {
        assert(items_view(items, n) == Seq::<JsonView>::empty());
    }
}

/// `members_view` keeps the length and views each member in its place.
pub proof fn lemma_members_view(members: Seq<(String, Json)>, n: nat)
    requires
        n <= members.len(),
    ensures
        members_view(members, n).len() == n,
        forall|i: int|
            0 <= i < n ==> #[trigger] members_view(members, n)[i] == (
                members[i].0@,
                members[i].1@,
            ),
    decreases n,
{
    if n > 0 {
        lemma_members_view(members, (n - 1) as nat);
        assert(members_view(members, n) == members_view(members, (n - 1) as nat).push(
            (members[n - 1].0@, members[n - 1].1@),
        ));
    } else {
        assert(members_view(members, n) == Seq::<(Seq<char>, JsonView)>::empty());
    }
}

/// `serde_json::Error`. Nothing is known of what it holds.
#[verifier::external_type_specification]
#[verifier::external_body]
pub struct ExJsonError(serde_json::Error);

/// `serde_json::to_string` on a string slice. It writes the JSON string literal for
/// the slice into a buffer in memory, which cannot fail: the text is the opening
/// quote, each character as `escaped_char` writes it, and the closing quote.
#[verifier::external_body]
fn quote(s: &str) -> (r: Result<String, serde_json::Error>)
    ensures
        r is Ok,
        r is Ok ==> r.unwrap()@ == json_quoted(s@),
{
    serde_json::to_string(s)
}

/// The decimal numeral of a signed integer.
pub fn integer_string(n: i64) -> (s: String)
    ensures
        s@ == integer_digits(n as int),
{
    if n >= 0 {
        decimal_string(n as u64)
    } else {
        let magnitude: u64 = ((-(n + 1)) as u64) + 1;
        let digits = decimal_string(magnitude);
        String::from_str("-").concat(digits.as_str())
    }
}

/// The JSON string literal for `s`.
pub fn quoted(s: &str) -> (text: String)
    ensures
        text@ == json_quoted(s@),
{
    match quote(s) {
        Ok(text) => text,
        Err(_) => vstd::pervasive::unreached(),
    }
}

impl Json {
    /// The compact JSON text of the document.
    pub fn to_text(&self) -> (text: String)
        ensures
            text@ == json_text(self@),
        decreases self,
    {
        match self {
            Json::Null => String::from_str("null"),
            Json::Bool(b) => if *b {
                String::from_str("true")
            } else {
                String::from_str("false")
            },
            Json::UInt(n) => decimal_string(*n),
            Json::Int(n) => integer_string(*n),
            Json::Decimal(t) => t.clone(),
            Json::Str(s) => quoted(s.as_str()),
            Json::Array(items) => {
                let ghost views = items_view(items@, items@.len());
                proof {
                    lemma_items_view(items@, items@.len());
                }
                let mut out = String::from_str("[");
                let mut i: usize = 0;
                while i < items.len()
                    invariant
                        i <= items.len(),
                        decreases_to!(self => items),
                        views == items_view(items@, items@.len()),
                        views.len() == items@.len(),
                        forall|k: int| 0 <= k < items@.len() ==> #[trigger] views[k] == items@[k]@,
                        out@ == "["@ + joined_items(views, i as nat),
                    decreases items.len() - i,
                {
                    if i > 0 {
                        out.append(",");
                    }
                    assert(decreases_to!(*items => items[i as int]));
                    let item = items[i].to_text();
                    out.append(item.as_str());
                    assert(out@ =~= "["@ + joined_items(views, (i + 1) as nat));
                    i += 1;
                }
                out.append("]");
                out
            },
            Json::Object(members) => {
                let ghost views = members_view(members@, members@.len());
                proof {
                    lemma_members_view(members@, members@.len());
                }
                let mut out = String::from_str("{");
                let mut i: usize = 0;
                while i < members.len()
                    invariant
                        i <= members.len(),
                        decreases_to!(self => members),
                        views == members_view(members@, members@.len()),
                        views.len() == members@.len(),
                        forall|k: int|
                            0 <= k < members@.len() ==> #[trigger] views[k] == (
                                members@[k].0@,
                                members@[k].1@,
                            ),
                        out@ == "{"@ + joined_members(views, i as nat),
                    decreases members.len() - i,
                {
                    if i > 0 {
                        out.append(",");
                    }
                    let name = quoted(members[i].0.as_str());
                    out.append(name.as_str());
                    out.append(":");
                    assert(decreases_to!(*members => members[i as int]));
                    let value = members[i].1.to_text();
                    out.append(value.as_str());
                    assert(out@ =~= "{"@ + joined_members(views, (i + 1) as nat));
                    i += 1;
                }
                out.append("}");
                out
            },
        }
    }
}

/// The views of all of `items`.
pub open spec fn all_items(items: &Vec<Json>) -> Seq<JsonView> {
    items_view(items@, items@.len())
}

/// The views of all of `members`.
pub open spec fn all_members(members: &Vec<(String, Json)>) -> Seq<(Seq<char>, JsonView)> {
    members_view(members@, members@.len())
}

/// The value of the member called `name`: where several members have that name, the
/// one written last.
pub open spec fn member_named(members: Seq<(Seq<char>, JsonView)>, name: Seq<char>) -> Option<
    JsonView,
>
    decreases members.len(),
{
    if members.len() == 0 {
        None
    } else if members.last().0 == name {
        Some(members.last().1)
    } else {
        member_named(members.drop_last(), name)
    }
}

/// The member of a document called `name`; a document that is no object has none.
pub open spec fn field(j: JsonView, name: Seq<char>) -> Option<JsonView> {
    match j {
        JsonView::Object(members) => member_named(members, name),
        _ => None,
    }
}

/// Appends one item to the items of an array under construction.
pub fn push_item(items: &mut Vec<Json>, value: Json)
    ensures
        all_items(final(items)) == all_items(old(items)).push(value@),
{
    let ghost before = items@;
    items.push(value);
    proof {
        lemma_items_view(before, before.len());
        lemma_items_view(items@, items@.len());
        assert(all_items(items) =~= all_items(old(items)).push(value@));
    }
}

/// Appends one member to the members of an object under construction.
pub fn push_member(members: &mut Vec<(String, Json)>, name: &str, value: Json)
    ensures
        all_members(final(members)) == all_members(old(members)).push((name@, value@)),
{
    let ghost before = members@;
    members.push((String::from_str(name), value));
    proof {
        lemma_members_view(before, before.len());
        lemma_members_view(members@, members@.len());
        assert(all_members(members) =~= all_members(old(members)).push((name@, value@)));
    }
}

/// The first position at or after `from` whose member is called `name`; the
/// number of members where there is none.
pub open spec fn position_of(members: Seq<(Seq<char>, JsonView)>, name: Seq<char>, from: int) -> int
    decreases members.len() - from,
{
    if from < 0 || from >= members.len() {
        members.len() as int
    } else if members[from].0 == name {
        from
    } else {
        position_of(members, name, from + 1)
    }
}

/// The members after `name` has been set to `value`: the first member of that
/// name gets the value and keeps its place; where there is none, a new member is
/// added at the end.
pub open spec fn with_member(
    members: Seq<(Seq<char>, JsonView)>,
    name: Seq<char>,
    value: JsonView,
) -> Seq<(Seq<char>, JsonView)> {
    let at = position_of(members, name, 0);
    if at < members.len() {
        members.update(at, (name, value))
    } else {
        members.push((name, value))
    }
}

/// No two members have the same name.
pub open spec fn names_unique(members: Seq<(Seq<char>, JsonView)>) -> bool {
    forall|i: int, j: int|
        0 <= i < j < members.len() ==> (#[trigger] members[i]).0 != (#[trigger] members[j]).0
}

/// `position_of` finds a member of that name, and none of that name stands
/// between `from` and it.
pub proof fn lemma_position_of(members: Seq<(Seq<char>, JsonView)>, name: Seq<char>, from: int)
    requires
        0 <= from <= members.len(),
    ensures
        from <= position_of(members, name, from) <= members.len(),
        position_of(members, name, from) < members.len() ==> members[position_of(
            members,
            name,
            from,
        )].0 == name,
        forall|k: int|
            from <= k < position_of(members, name, from) ==> (#[trigger] members[k]).0 != name,
    decreases members.len() - from,
{
    if from < members.len() && members[from].0 != name {
        lemma_position_of(members, name, from + 1);
    }
}

/// Setting a member keeps the names unique.
pub proof fn lemma_with_member_keeps_names_unique(
    members: Seq<(Seq<char>, JsonView)>,
    name: Seq<char>,
    value: JsonView,
)
    requires
        names_unique(members),
    ensures
        names_unique(with_member(members, name, value)),
{
    lemma_position_of(members, name, 0);
    let after = with_member(members, name, value);
    assert forall|i: int, j: int| 0 <= i < j < after.len() implies (#[trigger] after[i]).0 != (
    #[trigger] after[j]).0 by {
        let at = position_of(members, name, 0);
        if at < members.len() {
            assert(members[i].0 != members[j].0);
            if i == at {
                assert(members[at].0 != members[j].0);
            }
            if j == at {
                assert(members[i].0 != members[at].0);
            }
        } else {
            if j < members.len() {
                assert(members[i].0 != members[j].0);
            } else {
                assert(members[i].0 != name);
            }
        }
    }
}

/// Where the names are unique, a member that was set is the one found under its name.
pub proof fn lemma_member_set_is_found(
    members: Seq<(Seq<char>, JsonView)>,
    name: Seq<char>,
    value: JsonView,
)
    requires
        names_unique(members),
    ensures
        member_named(with_member(members, name, value), name) == Some(value),
{
    lemma_position_of(members, name, 0);
    let at = position_of(members, name, 0);
    let after = with_member(members, name, value);
    lemma_with_member_keeps_names_unique(members, name, value);
    let target = if at < members.len() {
        at
    } else {
        members.len() as int
    };
    assert(after[target] == (name, value));
    lemma_unique_member_found(after, target);
}

/// Where the names are unique, each member is the one found under its name.
pub proof fn lemma_unique_member_found(members: Seq<(Seq<char>, JsonView)>, at: int)
    requires
        names_unique(members),
        0 <= at < members.len(),
    ensures
        member_named(members, members[at].0) == Some(members[at].1),
    decreases members.len(),
{
    if at < members.len() - 1 {
        let shorter = members.drop_last();
        assert(members[at].0 != members[members.len() - 1].0);
        assert forall|i: int, j: int| 0 <= i < j < shorter.len() implies (#[trigger] shorter[i]).0
            != (#[trigger] shorter[j]).0 by {
            assert(members[i].0 != members[j].0);
        }
        lemma_unique_member_found(shorter, at);
    }
}

/// Sets the member called `name` of an object under construction: the first
/// member of that name gets the value, and a new member is added where there is none.
pub fn set_member(members: &mut Vec<(String, Json)>, name: &str, value: Json)
    ensures
        all_members(final(members)) == with_member(all_members(old(members)), name@, value@),
{
    let wanted = String::from_str(name);
    let ghost before = all_members(members);
    proof {
        lemma_members_view(members@, members@.len());
    }
    let mut i: usize = 0;
    while i < members.len()
        invariant
            i <= members.len(),
            wanted@ == name@,
            *members == *old(members),
            before == all_members(members),
            before.len() == members@.len(),
            forall|k: int|
                0 <= k < members@.len() ==> #[trigger] before[k] == (
                    members@[k].0@,
                    members@[k].1@,
                ),
            position_of(before, name@, 0) == position_of(before, name@, i as int),
        decreases members.len() - i,
    {
        if members[i].0 == wanted {
            members.set(i, (wanted, value));
            proof {
                lemma_members_view(members@, members@.len());
                assert(all_members(members) =~= before.update(i as int, (name@, value@)));
            }
            return ;
        }
        i += 1;
    }
    push_member(members, name, value);
}

/// A copy of the members of an object.
pub fn clone_members(members: &Vec<(String, Json)>) -> (copies: Vec<(String, Json)>)
    ensures
        all_members(&copies) == all_members(members),
{
    let mut copies: Vec<(String, Json)> = Vec::new();
    let mut i: usize = 0;
    while i < members.len()
        invariant
            i <= members.len(),
            all_members(&copies) == all_members(members).take(i as int),
        decreases members.len() - i,
    {
        let copy = members[i].1.clone();
        push_member(&mut copies, members[i].0.as_str(), copy);
        proof {
            lemma_members_view(members@, members@.len());
            assert(all_members(&copies) =~= all_members(members).take(i + 1));
        }
        i += 1;
    }
    proof {
        lemma_members_view(members@, members@.len());
        assert(all_members(members).take(i as int) =~= all_members(members));
    }
    copies
}

impl Json {
    /// The member called `name` of an object: the one written last where several
    /// have that name. `None` for a document that is no object or has no such member.
    pub fn get(&self, name: &str) -> (found: Option<&Json>)
        ensures
            match found {
                Some(value) => field(self@, name@) == Some(value@) && decreases_to!(self => value),
                None => field(self@, name@).is_none(),
            },
    {
        match self {
            Json::Object(members) => {
                let wanted = String::from_str(name);
                let ghost views = all_members(members);
                proof {
                    lemma_members_view(members@, members@.len());
                }
                let mut i: usize = members.len();
                proof {
                    assert(views.take(i as int) =~= views);
                }
                while i > 0
                    invariant
                        i <= members.len(),
                        wanted@ == name@,
                        decreases_to!(self => members),
                        self@ == JsonView::Object(views),
                        views == all_members(members),
                        views.len() == members@.len(),
                        forall|k: int|
                            0 <= k < members@.len() ==> #[trigger] views[k] == (
                                members@[k].0@,
                                members@[k].1@,
                            ),
                        member_named(views, name@) == member_named(views.take(i as int), name@),
                    decreases i,
                {
                    i -= 1;
                    proof {
                        assert(views.take(i + 1).last() == views[i as int]);
                        assert(views.take(i + 1).drop_last() =~= views.take(i as int));
                    }
                    if members[i].0 == wanted {
                        assert(decreases_to!(*members => members[i as int]));
                        return Some(&members[i].1);
                    }
                    proof {
                        assert(member_named(views.take(i + 1), name@) == member_named(
                            views.take(i as int),
                            name@,
                        ));
                    }
                }
                proof {
                    assert(views.take(0).len() == 0);
                }
                None
            },
            _ => None,
        }
    }
}

impl Clone for Json {
    fn clone(&self) -> (copy: Json)
        ensures
            copy@ == self@,
        decreases self,
    {
        match self {
            Json::Null => Json::Null,
            Json::Bool(b) => Json::Bool(*b),
            Json::UInt(n) => Json::UInt(*n),
            Json::Int(n) => Json::Int(*n),
            Json::Decimal(t) => Json::Decimal(t.clone()),
            Json::Str(s) => Json::Str(s.clone()),
            Json::Array(items) => {
                let mut copies: Vec<Json> = Vec::new();
                let mut i: usize = 0;
                proof {
                    lemma_items_view(items@, items@.len());
                }
                while i < items.len()
                    invariant
                        i <= items.len(),
                        decreases_to!(self => items),
                        all_items(&copies) == all_items(items).take(i as int),
                    decreases items.len() - i,
                {
                    assert(decreases_to!(*items => items[i as int]));
                    let copy = items[i].clone();
                    push_item(&mut copies, copy);
                    proof {
                        lemma_items_view(items@, items@.len());
                        assert(all_items(&copies) =~= all_items(items).take(i + 1));
                    }
                    i += 1;
                }
                proof {
                    lemma_items_view(items@, items@.len());
                    assert(all_items(items).take(i as int) =~= all_items(items));
                }
                Json::Array(copies)
            },
            Json::Object(members) => {
                let mut copies: Vec<(String, Json)> = Vec::new();
                let mut i: usize = 0;
                while i < members.len()
                    invariant
                        i <= members.len(),
                        decreases_to!(self => members),
                        all_members(&copies) == all_members(members).take(i as int),
                    decreases members.len() - i,
                {
                    assert(decreases_to!(*members => members[i as int]));
                    let copy = members[i].1.clone();
                    push_member(&mut copies, members[i].0.as_str(), copy);
                    proof {
                        lemma_members_view(members@, members@.len());
                        assert(all_members(&copies) =~= all_members(members).take(i + 1));
                    }
                    i += 1;
                }
                proof {
                    lemma_members_view(members@, members@.len());
                    assert(all_members(members).take(i as int) =~= all_members(members));
                }
                Json::Object(copies)
            },
        }
    }
}

/// The string a document holds, where it is a string.
pub open spec fn as_text(j: JsonView) -> Option<Seq<char>> {
    match j {
        JsonView::Str(s) => Some(s),
        _ => None,
    }
}

/// The non-negative integer below 2^64 a document holds, where it is one.
pub open spec fn as_unsigned(j: JsonView) -> Option<u64> {
    match j {
        JsonView::UInt(n) => Some(n),
        JsonView::Int(n) => if n >= 0 {
            Some(n as u64)
        } else {
            None
        },
        _ => None,
    }
}

impl Json {
    /// The string the document holds, where it is a string.
    pub fn as_str(&self) -> (text: Option<&str>)
        ensures
            match text {
                Some(s) => as_text(self@) == Some(s@),
                None => as_text(self@).is_none(),
            },
    {
        match self {
            Json::Str(s) => Some(s.as_str()),
            _ => None,
        }
    }

    /// The non-negative integer the document holds, where it is one.
    pub fn as_u64(&self) -> (number: Option<u64>)
        ensures
            number == as_unsigned(self@),
    {
        match self {
            Json::UInt(n) => Some(*n),
            Json::Int(n) => if *n >= 0 {
                Some(*n as u64)
            } else {
                None
            },
            _ => None,
        }
    }

    /// Whether the document is `null`.
    pub fn is_null(&self) -> (null: bool)
        ensures
            null == (self@ is Null),
    {
        match self {
            Json::Null => true,
            _ => false,
        }
    }
}

/// The last position whose member is called `name`, or -1 where there is none.
pub open spec fn last_position(members: Seq<(Seq<char>, JsonView)>, name: Seq<char>) -> int
    decreases members.len(),
{
    if members.len() == 0 {
        -1
    } else if members.last().0 == name {
        members.len() - 1
    } else {
        last_position(members.drop_last(), name)
    }
}

/// The member found under a name is the one at the last position of that name.
pub proof fn lemma_last_position(members: Seq<(Seq<char>, JsonView)>, name: Seq<char>)
    ensures
        -1 <= last_position(members, name) < members.len(),
        last_position(members, name) >= 0 ==> members[last_position(members, name)].0 == name
            && member_named(members, name) == Some(members[last_position(members, name)].1),
        last_position(members, name) < 0 ==> member_named(members, name).is_none(),
    decreases members.len(),
{
    if members.len() > 0 && members.last().0 != name {
        lemma_last_position(members.drop_last(), name);
    }
}

/// The items of a document that is an array.
pub open spec fn as_items(j: JsonView) -> Option<Seq<JsonView>> {
    match j {
        JsonView::Array(items) => Some(items),
        _ => None,
    }
}

/// The integer of 64 bits a document holds, where it is one.
pub open spec fn as_signed(j: JsonView) -> Option<i64> {
    match j {
        JsonView::UInt(n) => if n <= i64::MAX as u64 {
            Some(n as i64)
        } else {
            None
        },
        JsonView::Int(n) => Some(n),
        _ => None,
    }
}

impl Json {
    /// The integer of 64 bits the document holds, where it is one.
    pub fn as_i64(&self) -> (number: Option<i64>)
        ensures
            number == as_signed(self@),
    {
        match self {
            Json::UInt(n) => if *n <= i64::MAX as u64 {
                Some(*n as i64)
            } else {
                None
            },
            Json::Int(n) => Some(*n),
            _ => None,
        }
    }

    /// The items of the document, where it is an array.
    pub fn as_array(&self) -> (items: Option<&Vec<Json>>)
        ensures
            match items {
                Some(found) => as_items(self@) == Some(all_items(found)) && decreases_to!(self => found),
                None => as_items(self@).is_none(),
            },
    {
        match self {
            Json::Array(items) => Some(items),
            _ => None,
        }
    }

    /// The boolean the document holds, where it is one.
    pub fn as_bool(&self) -> (value: Option<bool>)
        ensures
            match value {
                Some(b) => self@ == JsonView::Bool(b),
                None => !(self@ is Bool),
            },
    {
        match self {
            Json::Bool(b) => Some(*b),
            _ => None,
        }
    }
}

/// A member is looked for in what was written later first.
pub proof fn lemma_member_named_concat(
    earlier: Seq<(Seq<char>, JsonView)>,
    later: Seq<(Seq<char>, JsonView)>,
    name: Seq<char>,
)
    ensures
        member_named(earlier + later, name) == match member_named(later, name) {
            Some(value) => Some(value),
            None => member_named(earlier, name),
        },
    decreases later.len(),
{
    if later.len() == 0 {
        assert(earlier + later =~= earlier);
    } else {
        assert((earlier + later).last() == later.last());
        assert((earlier + later).drop_last() =~= earlier + later.drop_last());
        if later.last().0 != name {
            lemma_member_named_concat(earlier, later.drop_last(), name);
        }
    }
}

} // verus!
