//! What is written as a JSON object or array is read back part by part.

use vstd::prelude::*;
use crate::json::{parts_written, walk, Part};

verus! {

/// The inside of a JSON string: a backslash takes the next character with it, and no
/// other quotation mark stands there.
pub open spec fn is_content(s: Seq<char>) -> bool
    decreases s.len(),
{
    ||| s.len() == 0
    ||| s[0] != '"' && s[0] != '\\' && is_content(s.skip(1))
    ||| s[0] == '\\' && s.len() >= 2 && is_content(s.skip(2))
}

/// A JSON string.
pub open spec fn is_string(s: Seq<char>) -> bool {
    s.len() >= 2 && s[0] == '"' && s.last() == '"' && is_content(s.subrange(1, s.len() - 1))
}

/// No quotation mark and no bracket.
pub open spec fn is_ordinary(c: char) -> bool {
    c != '"' && c != '{' && c != '}' && c != '[' && c != ']'
}

/// What may stand between brackets: ordinary characters, strings, and brackets that
/// are closed again. At the outermost level a comma or a colon may stand only where
/// `separated` says so.
pub open spec fn is_inside(s: Seq<char>, separated: bool) -> bool
    decreases s.len(),
{
    ||| s.len() == 0
    ||| is_ordinary(s[0]) && (separated || (s[0] != ',' && s[0] != ':')) && is_inside(
        s.skip(1),
        separated,
    )
    ||| exists|k: int|
        {
            &&& 2 <= k <= s.len()
            &&& #[trigger] is_string(s.take(k))
            &&& is_inside(s.skip(k), separated)
        }
    ||| (s[0] == '{' || s[0] == '[') && exists|k: int|
        {
            &&& 1 <= k < s.len()
            &&& (#[trigger] s[k] == '}' || s[k] == ']')
            &&& is_inside(s.subrange(1, k), true)
            &&& is_inside(s.skip(k + 1), separated)
        }
}

/// White space.
pub open spec fn is_gap(s: Seq<char>) -> bool {
    forall|i: int|
        0 <= i < s.len() ==> (#[trigger] s[i] == ' ' || s[i] == '\n' || s[i] == '\r' || s[i] == '\t')
}

/// A member of an object as it is written.
pub struct MemberText {
    /// What stands before the name.
    pub before: Seq<char>,
    pub name: Seq<char>,
    /// What stands between the name and the colon.
    pub between: Seq<char>,
    pub value: Seq<char>,
}

impl MemberText {
    /// It is written as JSON has it.
    pub open spec fn is_well(self) -> bool {
        is_gap(self.before) && is_string(self.name) && is_gap(self.between) && is_inside(
            self.value,
            false,
        )
    }

    /// The text of the member.
    pub open spec fn text(self) -> Seq<char> {
        self.before + self.name + self.between + ":"@ + self.value
    }
}

/// Members with commas between them.
pub open spec fn members_text(members: Seq<MemberText>) -> Seq<char>
    decreases members.len(),
{
    if members.len() == 0 {
        seq![]
    } else if members.len() == 1 {
        members[0].text()
    } else {
        members_text(members.drop_last()) + ","@ + members.last().text()
    }
}

/// Items with commas between them.
pub open spec fn items_text(items: Seq<Seq<char>>) -> Seq<char>
    decreases items.len(),
{
    if items.len() == 0 {
        seq![]
    } else if items.len() == 1 {
        items[0]
    } else {
        items_text(items.drop_last()) + ","@ + items.last()
    }
}

/// Nothing but where the last string stands is different after a stretch of text.
spec fn same_place(text: Seq<char>, n: int, m: int) -> bool {
    let a = walk(text, n as nat);
    let b = walk(text, m as nat);
    &&& !b.in_string && !b.escaped
    &&& b.depth == a.depth
    &&& b.name_start == a.name_start && b.name_end == a.name_end
    &&& b.value_start == a.value_start
    &&& b.parts == a.parts
}

spec fn outside(text: Seq<char>, n: int) -> bool {
    !walk(text, n as nat).in_string && !walk(text, n as nat).escaped
}

proof fn lemma_content(text: Seq<char>, n: int, len: int)
    requires
        0 <= n && 0 <= len && n + len <= text.len(),
        walk(text, n as nat).in_string && !walk(text, n as nat).escaped,
        is_content(text.subrange(n, n + len)),
    ensures
        walk(text, (n + len) as nat) == walk(text, n as nat),
    decreases len,
{
    let s = text.subrange(n, n + len);
    if len > 0 {
        assert(s[0] == text[n]);
        if s[0] == '\\' {
            assert(s.skip(2) =~= text.subrange(n + 2, n + len));
            assert(walk(text, (n + 1) as nat).escaped);
            assert(walk(text, (n + 2) as nat) == walk(text, n as nat));
            lemma_content(text, n + 2, len - 2);
        } else {
            assert(s.skip(1) =~= text.subrange(n + 1, n + len));
            assert(walk(text, (n + 1) as nat) == walk(text, n as nat));
            lemma_content(text, n + 1, len - 1);
        }
    }
}

proof fn lemma_string(text: Seq<char>, n: int, len: int)
    requires
        0 <= n && 0 <= len && n + len <= text.len(),
        outside(text, n),
        is_string(text.subrange(n, n + len)),
    ensures
        same_place(text, n, n + len),
        walk(text, (n + len) as nat).start == n,
        walk(text, (n + len) as nat).end == n + len,
{
    let s = text.subrange(n, n + len);
    assert(s[0] == text[n]);
    assert(s.last() == text[n + len - 1]);
    assert(s.subrange(1, s.len() - 1) =~= text.subrange(n + 1, n + 1 + (len - 2)));
    assert(walk(text, (n + 1) as nat).in_string && !walk(text, (n + 1) as nat).escaped);
    lemma_content(text, n + 1, len - 2);
    assert(walk(text, (n + len - 1) as nat) == walk(text, (n + 1) as nat));
}

/// Inside the brackets of an object or array a stretch of text changes nothing; at
/// their own level it must not hold a comma or a colon.
proof fn lemma_inside(text: Seq<char>, n: int, len: int, separated: bool)
    requires
        0 <= n && 0 <= len && n + len <= text.len(),
        outside(text, n),
        is_inside(text.subrange(n, n + len), separated),
        walk(text, n as nat).depth >= 1,
        separated ==> walk(text, n as nat).depth >= 2,
    ensures
        same_place(text, n, n + len),
    decreases len,
{
    let s = text.subrange(n, n + len);
    if len > 0 {
        assert(s[0] == text[n]);
        if is_ordinary(s[0]) && (separated || (s[0] != ',' && s[0] != ':')) && is_inside(
            s.skip(1),
            separated,
        ) {
            assert(s.skip(1) =~= text.subrange(n + 1, n + 1 + (len - 1)));
            assert(same_place(text, n, n + 1));
            lemma_inside(text, n + 1, len - 1, separated);
        } else if exists|k: int|
            {
                &&& 2 <= k <= s.len()
                &&& #[trigger] is_string(s.take(k))
                &&& is_inside(s.skip(k), separated)
            } {
            let k = choose|k: int|
                {
                    &&& 2 <= k <= s.len()
                    &&& #[trigger] is_string(s.take(k))
                    &&& is_inside(s.skip(k), separated)
                };
            assert(s.take(k) =~= text.subrange(n, n + k));
            assert(s.skip(k) =~= text.subrange(n + k, n + k + (len - k)));
            lemma_string(text, n, k);
            lemma_inside(text, n + k, len - k, separated);
        } else {
            let k = choose|k: int|
                {
                    &&& 1 <= k < s.len()
                    &&& (#[trigger] s[k] == '}' || s[k] == ']')
                    &&& is_inside(s.subrange(1, k), true)
                    &&& is_inside(s.skip(k + 1), separated)
                };
            assert(s.subrange(1, k) =~= text.subrange(n + 1, n + 1 + (k - 1)));
            assert(s.skip(k + 1) =~= text.subrange(n + k + 1, n + k + 1 + (len - k - 1)));
            assert(outside(text, n + 1));
            lemma_inside(text, n + 1, k - 1, true);
            assert(s[k] == text[n + k]);
            assert(same_place(text, n, n + k + 1));
            lemma_inside(text, n + k + 1, len - k - 1, separated);
        }
    }
}

proof fn lemma_gap(text: Seq<char>, n: int, len: int)
    requires
        0 <= n && 0 <= len && n + len <= text.len(),
        outside(text, n),
        is_gap(text.subrange(n, n + len)),
    ensures
        walk(text, (n + len) as nat) == walk(text, n as nat),
    decreases len,
{
    if len > 0 {
        let s = text.subrange(n, n + len);
        assert(s[0] == text[n]);
        assert(walk(text, (n + 1) as nat) == walk(text, n as nat));
        let t = text.subrange(n + 1, n + 1 + (len - 1));
        assert forall|i: int| 0 <= i < t.len() implies (#[trigger] t[i] == ' ' || t[i] == '\n'
            || t[i] == '\r' || t[i] == '\t') by {
            assert(t[i] == s[i + 1]);
        }
        lemma_gap(text, n + 1, len - 1);
    }
}

proof fn lemma_member_text(text: Seq<char>, n: int, m: MemberText)
    requires
        0 <= n && n + m.text().len() <= text.len(),
        outside(text, n),
        walk(text, n as nat).depth == 1,
        m.is_well(),
        text.subrange(n, n + m.text().len()) == m.text(),
    ensures
        ({
            let end = n + m.text().len();
            &&& outside(text, end)
            &&& walk(text, end as nat).depth == 1
            &&& walk(text, end as nat).parts == walk(text, n as nat).parts
            &&& walk(text, end as nat).part(text, end) == (Part { name: m.name, value: m.value })
        }),
{
    reveal_strlit(":");
    let whole = m.text();
    let b = n + m.before.len();
    let c = b + m.name.len();
    let d = c + m.between.len();
    let e = d + 1 + m.value.len();
    assert(whole.len() == e - n);
    assert(text.subrange(n, b) =~= m.before) by {
        assert(m.before =~= whole.take(m.before.len() as int));
        assert(text.subrange(n, b) =~= text.subrange(n, e).take(b - n));
    }
    assert(text.subrange(b, c) =~= m.name) by {
        assert(m.name =~= whole.subrange(b - n, c - n));
        assert(text.subrange(b, c) =~= text.subrange(n, e).subrange(b - n, c - n));
    }
    assert(text.subrange(c, d) =~= m.between) by {
        assert(m.between =~= whole.subrange(c - n, d - n));
        assert(text.subrange(c, d) =~= text.subrange(n, e).subrange(c - n, d - n));
    }
    assert(text[d] == ':') by {
        assert(whole[d - n] == ':');
        assert(text.subrange(n, e)[d - n] == text[d]);
    }
    assert(text.subrange(d + 1, e) =~= m.value) by {
        assert(m.value =~= whole.subrange(d + 1 - n, e - n));
        assert(text.subrange(d + 1, e) =~= text.subrange(n, e).subrange(d + 1 - n, e - n));
    }
    lemma_gap(text, n, m.before.len() as int);
    lemma_string(text, b, m.name.len() as int);
    lemma_gap(text, c, m.between.len() as int);
    assert(outside(text, d + 1));
    assert(walk(text, (d + 1) as nat).name_start == b);
    assert(walk(text, (d + 1) as nat).name_end == c);
    assert(walk(text, (d + 1) as nat).value_start == d + 1);
    assert(text.subrange(d + 1, d + 1 + m.value.len()) =~= m.value);
    lemma_inside(text, d + 1, m.value.len() as int, false);
}

spec fn parts_of_members(members: Seq<MemberText>) -> Seq<Part> {
    members.map_values(|m: MemberText| Part { name: m.name, value: m.value })
}

proof fn lemma_members(text: Seq<char>, n: int, members: Seq<MemberText>)
    requires
        members.len() > 0,
        0 <= n && n + members_text(members).len() <= text.len(),
        outside(text, n),
        walk(text, n as nat).depth == 1,
        walk(text, n as nat).parts.len() == 0,
        forall|i: int| 0 <= i < members.len() ==> (#[trigger] members[i]).is_well(),
        text.subrange(n, n + members_text(members).len()) == members_text(members),
    ensures
        ({
            let end = n + members_text(members).len();
            let at = walk(text, end as nat);
            &&& outside(text, end)
            &&& at.depth == 1
            &&& at.parts == parts_of_members(members.drop_last())
            &&& at.part(text, end) == (Part {
                name: members.last().name,
                value: members.last().value,
            })
        }),
    decreases members.len(),
{
    let m = members.last();
    assert(members[members.len() - 1].is_well());
    if members.len() == 1 {
        lemma_member_text(text, n, m);
        assert(parts_of_members(members.drop_last()) =~= seq![]);
    } else {
        reveal_strlit(",");
        let rest = members.drop_last();
        let whole = members_text(members);
        let head = members_text(rest);
        let c = n + head.len();
        let e = n + whole.len();
        assert(whole == head + ","@ + m.text());
        assert(text.subrange(n, c) =~= head) by {
            assert(head =~= whole.take(c - n));
            assert(text.subrange(n, c) =~= text.subrange(n, e).take(c - n));
        }
        assert(text[c] == ',') by {
            assert(whole[c - n] == ',');
            assert(text.subrange(n, e)[c - n] == text[c]);
        }
        assert(text.subrange(c + 1, e) =~= m.text()) by {
            assert(m.text() =~= whole.subrange(c + 1 - n, e - n));
            assert(text.subrange(c + 1, e) =~= text.subrange(n, e).subrange(c + 1 - n, e - n));
        }
        assert forall|i: int| 0 <= i < rest.len() implies (#[trigger] rest[i]).is_well() by {
            assert(rest[i] == members[i]);
        }
        lemma_members(text, n, rest);
        assert(outside(text, c + 1));
        assert(walk(text, (c + 1) as nat).depth == 1);
        assert(walk(text, (c + 1) as nat).parts =~= parts_of_members(rest)) by {
            assert(parts_of_members(rest) =~= parts_of_members(rest.drop_last()).push(
                Part { name: rest.last().name, value: rest.last().value },
            ));
        }
        assert(e == c + 1 + m.text().len());
        lemma_member_text(text, c + 1, m);
    }
}

/// An object that is written as JSON has it is read back: its parts are its members,
/// in their order, each with its own name and its own value. Commas, colons and
/// brackets in strings, or further inside, separate nothing.
pub proof fn members_are_read_back(
    lead: Seq<char>,
    members: Seq<MemberText>,
    trail: Seq<char>,
)
    requires
        is_gap(lead),
        is_gap(trail),
        members.len() > 0,
        forall|i: int| 0 <= i < members.len() ==> (#[trigger] members[i]).is_well(),
    ensures
        ({
            let parts = parts_written(lead + "{"@ + members_text(members) + "}"@ + trail);
            &&& parts.len() == members.len()
            &&& forall|i: int|
                0 <= i < members.len() ==> {
                    &&& (#[trigger] parts[i]).name == members[i].name
                    &&& parts[i].value == members[i].value
                }
        }),
{
    reveal_strlit("{");
    reveal_strlit("}");
    let body = members_text(members);
    let text = lead + "{"@ + body + "}"@ + trail;
    let n: int = lead.len() as int + 1;
    let c: int = n + body.len();
    assert(text.subrange(0, lead.len() as int) =~= lead);
    lemma_gap(text, 0, lead.len() as int);
    assert(text[lead.len() as int] == '{');
    assert(outside(text, n));
    assert(text.subrange(n, c) =~= body);
    lemma_members(text, n, members);
    assert(text[c] == '}');
    let done = walk(text, (c + 1) as nat);
    assert(outside(text, c + 1));
    assert(done.parts =~= parts_of_members(members)) by {
        assert(parts_of_members(members) =~= parts_of_members(members.drop_last()).push(
            Part { name: members.last().name, value: members.last().value },
        ));
    }
    assert(text.subrange(c + 1, c + 1 + trail.len()) =~= trail);
    lemma_gap(text, c + 1, trail.len() as int);
    assert(text.len() == c + 1 + trail.len());
}

proof fn lemma_items(text: Seq<char>, n: int, items: Seq<Seq<char>>)
    requires
        items.len() > 0,
        0 <= n && n + items_text(items).len() <= text.len(),
        outside(text, n),
        walk(text, n as nat).depth == 1,
        walk(text, n as nat).parts.len() == 0,
        walk(text, n as nat).name_start == 0,
        walk(text, n as nat).name_end == 0,
        walk(text, n as nat).value_start == n,
        forall|i: int| 0 <= i < items.len() ==> is_inside(#[trigger] items[i], false),
        text.subrange(n, n + items_text(items).len()) == items_text(items),
    ensures
        ({
            let end = n + items_text(items).len();
            let at = walk(text, end as nat);
            &&& outside(text, end)
            &&& at.depth == 1
            &&& at.parts == items.drop_last().map_values(
                |item: Seq<char>| Part { name: seq![], value: item },
            )
            &&& at.part(text, end) == (Part { name: seq![], value: items.last() })
        }),
    decreases items.len(),
{
    let item = items.last();
    assert(is_inside(items[items.len() - 1], false));
    if items.len() == 1 {
        lemma_inside(text, n, item.len() as int, false);
        assert(text.subrange(0, 0) =~= seq![]);
        assert(items.drop_last().map_values(|item: Seq<char>| Part { name: seq![], value: item })
            =~= seq![]);
    } else {
        reveal_strlit(",");
        let rest = items.drop_last();
        let whole = items_text(items);
        let head = items_text(rest);
        let c = n + head.len();
        let e = n + whole.len();
        assert(whole == head + ","@ + item);
        assert(text.subrange(n, c) =~= head) by {
            assert(head =~= whole.take(c - n));
            assert(text.subrange(n, c) =~= text.subrange(n, e).take(c - n));
        }
        assert(text[c] == ',') by {
            assert(whole[c - n] == ',');
            assert(text.subrange(n, e)[c - n] == text[c]);
        }
        assert(text.subrange(c + 1, e) =~= item) by {
            assert(item =~= whole.subrange(c + 1 - n, e - n));
            assert(text.subrange(c + 1, e) =~= text.subrange(n, e).subrange(c + 1 - n, e - n));
        }
        assert forall|i: int| 0 <= i < rest.len() implies is_inside(#[trigger] rest[i], false) by {
            assert(rest[i] == items[i]);
        }
        lemma_items(text, n, rest);
        let earlier = rest.drop_last().map_values(
            |item: Seq<char>| Part { name: seq![], value: item },
        );
        assert(rest.map_values(|item: Seq<char>| Part { name: seq![], value: item })
            =~= earlier.push(Part { name: seq![], value: rest.last() }));
        assert(outside(text, c + 1));
        assert(e == c + 1 + item.len());
        lemma_inside(text, c + 1, item.len() as int, false);
        assert(text.subrange(0, 0) =~= seq![]);
    }
}

/// An array that is written as JSON has it is read back: its parts are its items, in
/// their order, without a name.
pub proof fn items_are_read_back(lead: Seq<char>, items: Seq<Seq<char>>, trail: Seq<char>)
    requires
        is_gap(lead),
        is_gap(trail),
        items.len() > 0,
        forall|i: int| 0 <= i < items.len() ==> is_inside(#[trigger] items[i], false),
    ensures
        ({
            let parts = parts_written(lead + "["@ + items_text(items) + "]"@ + trail);
            &&& parts.len() == items.len()
            &&& forall|i: int|
                0 <= i < items.len() ==> {
                    &&& (#[trigger] parts[i]).name == Seq::<char>::empty()
                    &&& parts[i].value == items[i]
                }
        }),
{
    reveal_strlit("[");
    reveal_strlit("]");
    let body = items_text(items);
    let text = lead + "["@ + body + "]"@ + trail;
    let n: int = lead.len() as int + 1;
    let c: int = n + body.len();
    assert(text.subrange(0, lead.len() as int) =~= lead);
    lemma_gap(text, 0, lead.len() as int);
    assert(text[lead.len() as int] == '[');
    assert(outside(text, n));
    assert(text.subrange(n, c) =~= body);
    lemma_items(text, n, items);
    assert(text[c] == ']');
    let done = walk(text, (c + 1) as nat);
    let all = items.map_values(|item: Seq<char>| Part { name: seq![], value: item });
    assert(outside(text, c + 1));
    assert(done.parts =~= all) by {
        let earlier = items.drop_last().map_values(
            |item: Seq<char>| Part { name: seq![], value: item },
        );
        assert(all =~= earlier.push(Part { name: seq![], value: items.last() }));
    }
    assert(text.subrange(c + 1, c + 1 + trail.len()) =~= trail);
    lemma_gap(text, c + 1, trail.len() as int);
    assert(text.len() == c + 1 + trail.len());
}

} // verus!
