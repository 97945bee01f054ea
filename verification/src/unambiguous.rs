//! The printed form is unambiguous: two plain documents that print alike are
//! the same document. So the text that a save writes loses nothing of a
//! plain document: whatever reads the text back can tell which document it
//! was.

use vstd::prelude::*;
use crate::json_backend::printed_number;
use crate::pretty::{rendered, rendered_items, rendered_member, rendered_members};
use crate::store::{saved_members, saved_text};
use crate::text::{blanks, decimal, digit};
use crate::value::{Json, Members, Number};

verus! {

/// Whether the text has no double quote in it.
pub open spec fn quote_free(text: Seq<char>) -> bool {
    forall|i: int| 0 <= i < text.len() ==> text[i] != '"'
}

/// Whether the character is a decimal digit.
pub open spec fn is_digit(c: char) -> bool {
    c == '0' || c == '1' || c == '2' || c == '3' || c == '4' || c == '5' || c == '6' || c == '7'
        || c == '8' || c == '9'
}

/// Whether what follows a printed value may follow it: nothing, a comma or a
/// line break.
pub open spec fn closed(rest: Seq<char>) -> bool {
    rest.len() == 0 || rest[0] == ',' || rest[0] == '\n'
}

/// The literals of the printed form, character by character.
pub proof fn lemma_literals()
    ensures
        "null"@ == seq!['n', 'u', 'l', 'l'],
        "true"@ == seq!['t', 'r', 'u', 'e'],
        "false"@ == seq!['f', 'a', 'l', 's', 'e'],
        "\""@ == seq!['"'],
        "\": "@ == seq!['"', ':', ' '],
        ",\n"@ == seq![',', '\n'],
        "\n"@ == seq!['\n'],
        "{\n"@ == seq!['{', '\n'],
        "[\n"@ == seq!['[', '\n'],
        "}"@ == seq!['}'],
        "]"@ == seq![']'],
{
    reveal_strlit("null");
    reveal_strlit("true");
    reveal_strlit("false");
    reveal_strlit("\"");
    reveal_strlit("\": ");
    reveal_strlit(",\n");
    reveal_strlit("\n");
    reveal_strlit("{\n");
    reveal_strlit("[\n");
    reveal_strlit("}");
    reveal_strlit("]");
    assert("null"@ =~= seq!['n', 'u', 'l', 'l']);
    assert("true"@ =~= seq!['t', 'r', 'u', 'e']);
    assert("false"@ =~= seq!['f', 'a', 'l', 's', 'e']);
    assert("\""@ =~= seq!['"']);
    assert("\": "@ =~= seq!['"', ':', ' ']);
    assert(",\n"@ =~= seq![',', '\n']);
    assert("\n"@ =~= seq!['\n']);
    assert("{\n"@ =~= seq!['{', '\n']);
    assert("[\n"@ =~= seq!['[', '\n']);
    assert("}"@ =~= seq!['}']);
    assert("]"@ =~= seq![']']);
}

/// Two texts that agree after a common beginning agree.
pub proof fn lemma_cancel(front: Seq<char>, a: Seq<char>, b: Seq<char>)
    requires
        front + a == front + b,
    ensures
        a == b,
{
    assert(a =~= (front + a).subrange(front.len() as int, (front + a).len() as int));
    assert(b =~= (front + b).subrange(front.len() as int, (front + b).len() as int));
}

/// Two texts that agree and begin with parts of the same length agree part
/// by part.
pub proof fn lemma_split(a: Seq<char>, s: Seq<char>, b: Seq<char>, t: Seq<char>)
    requires
        a + s == b + t,
        a.len() == b.len(),
    ensures
        a == b,
        s == t,
{
    assert(a =~= (a + s).subrange(0, a.len() as int));
    assert(b =~= (b + t).subrange(0, b.len() as int));
    assert(s =~= (a + s).subrange(a.len() as int, (a + s).len() as int));
    assert(t =~= (b + t).subrange(b.len() as int, (b + t).len() as int));
}

/// A numeral has at least one character, and digits only.
pub proof fn lemma_decimal_digits(n: nat)
    ensures
        decimal(n).len() >= 1,
        forall|i: int| 0 <= i < decimal(n).len() ==> is_digit(#[trigger] decimal(n)[i]),
    decreases n,
{
    if n >= 10 {
        lemma_decimal_digits(n / 10);
    }
}

/// A digit's numeral names one digit only.
pub proof fn lemma_digit_injective(a: nat, b: nat)
    requires
        a < 10,
        b < 10,
        digit(a) == digit(b),
    ensures
        a == b,
{
}

/// A numeral names one number only.
pub proof fn lemma_decimal_injective(m: nat, n: nat)
    requires
        decimal(m) == decimal(n),
    ensures
        m == n,
    decreases m,
{
    lemma_decimal_digits(m);
    lemma_decimal_digits(n);
    if m < 10 && n < 10 {
        assert(decimal(m)[0] == digit(m));
        assert(decimal(n)[0] == digit(n));
        lemma_digit_injective(m, n);
    } else if m >= 10 && n >= 10 {
        let a = decimal(m / 10);
        let b = decimal(n / 10);
        assert(a =~= decimal(m).drop_last());
        assert(b =~= decimal(n).drop_last());
        assert(decimal(m).last() == digit(m % 10));
        assert(decimal(n).last() == digit(n % 10));
        lemma_decimal_injective(m / 10, n / 10);
        lemma_digit_injective(m % 10, n % 10);
    } else if m < 10 {
        lemma_decimal_digits(n / 10);
        assert(decimal(n).len() >= 2);
    } else {
        lemma_decimal_digits(m / 10);
        assert(decimal(m).len() >= 2);
    }
}

/// Two texts of digits, each followed by something that is no digit, agree
/// in length if the whole texts agree.
pub proof fn lemma_digits_end(a: Seq<char>, s: Seq<char>, b: Seq<char>, t: Seq<char>)
    requires
        a + s == b + t,
        forall|i: int| 0 <= i < a.len() ==> is_digit(#[trigger] a[i]),
        forall|i: int| 0 <= i < b.len() ==> is_digit(#[trigger] b[i]),
        s.len() == 0 || !is_digit(s[0]),
        t.len() == 0 || !is_digit(t[0]),
    ensures
        a.len() == b.len(),
{
    let whole = a + s;
    assert(whole == b + t);
    if a.len() < b.len() {
        assert(whole[a.len() as int] == s[0]);
        assert(whole[a.len() as int] == b[a.len() as int]);
    } else if b.len() < a.len() {
        assert(whole[b.len() as int] == t[0]);
        assert(whole[b.len() as int] == a[b.len() as int]);
    }
}

/// Whether the printed form of `v` can be read back: no string or key has a
/// double quote in it, and every number is an integer without an exponent.
pub open spec fn plain(v: Json) -> bool
    decreases v,
{
    match v {
        Json::String(text) => quote_free(text),
        Json::Number(n) => n.exponent == 0,
        Json::Array(items) => forall|i: int| 0 <= i < items.len() ==> plain(#[trigger] items[i]),
        Json::Object(members) => forall|i: int|
            0 <= i < members.len() ==> quote_free((#[trigger] members[i]).0) && plain(members[i].1),
        _ => true,
    }
}

/// Two quoted texts without quotes inside agree, and so does what follows
/// them, if the whole texts agree.
pub proof fn lemma_quoted(x: Seq<char>, s: Seq<char>, y: Seq<char>, t: Seq<char>)
    requires
        quote_free(x),
        quote_free(y),
        seq!['"'] + x + seq!['"'] + s == seq!['"'] + y + seq!['"'] + t,
    ensures
        x == y,
        s == t,
{
    let left = seq!['"'] + x + seq!['"'];
    let right = seq!['"'] + y + seq!['"'];
    let whole = left + s;
    assert(whole == right + t);
    let after_x = x.len() as int + 1;
    let after_y = y.len() as int + 1;
    if x.len() < y.len() {
        assert(whole[after_x] == left[after_x]);
        assert(whole[after_x] == right[after_x]);
        assert(right[after_x] == y[after_x - 1]);
    } else if y.len() < x.len() {
        assert(whole[after_y] == right[after_y]);
        assert(whole[after_y] == left[after_y]);
        assert(left[after_y] == x[after_y - 1]);
    }
    lemma_split(left, s, right, t);
    assert(x =~= left.subrange(1, after_x));
    assert(y =~= right.subrange(1, after_y));
}

/// Two printed integers agree, and so does what follows them, if the whole
/// texts agree and what follows is closed.
pub proof fn lemma_number(a: Number, s: Seq<char>, b: Number, t: Seq<char>)
    requires
        a.exponent == 0,
        b.exponent == 0,
        closed(s),
        closed(t),
        printed_number(a) + s == printed_number(b) + t,
    ensures
        a == b,
        s == t,
{
    let da = decimal(a.mantissa as nat);
    let db = decimal(b.mantissa as nat);
    lemma_decimal_digits(a.mantissa as nat);
    lemma_decimal_digits(b.mantissa as nat);
    let whole = printed_number(a) + s;
    assert(whole == printed_number(b) + t);
    if a.positive && b.positive {
        assert(printed_number(a) =~= da);
        assert(printed_number(b) =~= db);
        lemma_digits_end(da, s, db, t);
        lemma_split(da, s, db, t);
        lemma_decimal_injective(a.mantissa as nat, b.mantissa as nat);
    } else if !a.positive && !b.positive {
        assert(printed_number(a) + s =~= seq!['-'] + (da + s));
        assert(printed_number(b) + t =~= seq!['-'] + (db + t));
        lemma_cancel(seq!['-'], da + s, db + t);
        lemma_digits_end(da, s, db, t);
        lemma_split(da, s, db, t);
        lemma_decimal_injective(a.mantissa as nat, b.mantissa as nat);
    } else if a.positive {
        assert(whole[0] == da[0]);
        assert(whole[0] == printed_number(b)[0]);
        assert(printed_number(b)[0] == '-');
    } else {
        assert(whole[0] == db[0]);
        assert(whole[0] == printed_number(a)[0]);
        assert(printed_number(a)[0] == '-');
    }
}

/// The first character of a printed value tells its variant.
pub proof fn lemma_first_char(v: Json, indent: nat)
    requires
        plain(v),
    ensures
        rendered(v, indent).len() >= 1,
        v is Null <==> rendered(v, indent)[0] == 'n',
        v matches Json::Boolean(on) ==> rendered(v, indent)[0] == (if on {
            't'
        } else {
            'f'
        }),
        v is Boolean <==> rendered(v, indent)[0] == 't' || rendered(v, indent)[0] == 'f',
        v is Number <==> rendered(v, indent)[0] == '-' || is_digit(rendered(v, indent)[0]),
        v is String <==> rendered(v, indent)[0] == '"',
        v is Array <==> rendered(v, indent)[0] == '[',
        v is Object <==> rendered(v, indent)[0] == '{',
{
    lemma_literals();
    match v {
        Json::Number(n) => {
            lemma_decimal_digits(n.mantissa as nat);
            assert(is_digit(decimal(n.mantissa as nat)[0]));
        },
        _ => {},
    }
}

/// What follows the value of member `i - 1` in the printed text of an
/// object: the members from `i` on, each after a comma and a line break,
/// and then `tail`.
pub open spec fn members_rest(members: Members, i: nat, indent: nat, tail: Seq<char>) -> Seq<
    char,
>
    decreases members.len() - i,
{
    if i >= members.len() {
        tail
    } else {
        ",\n"@ + rendered_member(members[i as int], indent) + members_rest(
            members,
            i + 1,
            indent,
            tail,
        )
    }
}

/// What follows item `i - 1` in the printed text of an array: the items
/// from `i` on, each after a comma and a line break, and then `tail`.
pub open spec fn items_rest(items: Seq<Json>, i: nat, indent: nat, tail: Seq<char>) -> Seq<char>
    decreases items.len() - i,
{
    if i >= items.len() {
        tail
    } else {
        ",\n"@ + (blanks(indent) + rendered(items[i as int], indent + 2)) + items_rest(
            items,
            i + 1,
            indent,
            tail,
        )
    }
}

/// The lines of the first `k` members, followed by the rest, are the lines
/// of all members followed by `tail`, with a comma and a line break before
/// them.
pub proof fn lemma_members_front(members: Members, k: nat, indent: nat, tail: Seq<char>)
    requires
        1 <= k <= members.len(),
    ensures
        ",\n"@ + (rendered_members(members, k, indent) + members_rest(members, k, indent, tail))
            == members_rest(members, 0, indent, tail),
    decreases k,
{
    let comma = ",\n"@;
    let rest = members_rest(members, k, indent, tail);
    if k == 1 {
        assert(comma + (rendered_members(members, 1, indent) + rest) =~= comma + rendered_member(
            members[0],
            indent,
        ) + rest);
    } else {
        let before = rendered_members(members, (k - 1) as nat, indent);
        let line = rendered_member(members[k - 1], indent);
        lemma_members_front(members, (k - 1) as nat, indent, tail);
        assert(members_rest(members, (k - 1) as nat, indent, tail) == comma + line + rest);
        assert(rendered_members(members, k, indent) + rest =~= before + (comma + line + rest));
    }
}

/// The lines of the first `k` items, followed by the rest, are the lines of
/// all items followed by `tail`, with a comma and a line break before them.
pub proof fn lemma_items_front(items: Seq<Json>, k: nat, indent: nat, tail: Seq<char>)
    requires
        1 <= k <= items.len(),
    ensures
        ",\n"@ + (rendered_items(items, k, indent) + items_rest(items, k, indent, tail))
            == items_rest(items, 0, indent, tail),
    decreases k,
{
    let comma = ",\n"@;
    let rest = items_rest(items, k, indent, tail);
    if k == 1 {
        assert(comma + (rendered_items(items, 1, indent) + rest) =~= comma + (blanks(indent)
            + rendered(items[0], indent + 2)) + rest);
    } else {
        let before = rendered_items(items, (k - 1) as nat, indent);
        let line = blanks(indent) + rendered(items[k - 1], indent + 2);
        lemma_items_front(items, (k - 1) as nat, indent, tail);
        assert(items_rest(items, (k - 1) as nat, indent, tail) == comma + line + rest);
        assert(rendered_items(items, k, indent) + rest =~= before + (comma + line + rest));
    }
}

/// What closes a container and follows it: a line break, the blanks before
/// the bracket, the bracket, and `rest`.
pub open spec fn closing(indent: nat, bracket: char, rest: Seq<char>) -> Seq<char> {
    "\n"@ + blanks((indent - 2) as nat) + seq![bracket] + rest
}

/// A line of a member or an item does not begin with a line break.
pub proof fn lemma_line_start(indent: nat, line: Seq<char>)
    requires
        line.len() >= 1,
        line[0] != '\n',
    ensures
        (blanks(indent) + line).len() >= 1,
        (blanks(indent) + line)[0] != '\n',
{
    if indent > 0 {
        assert((blanks(indent) + line)[0] == blanks(indent)[0]);
    } else {
        assert(blanks(indent) + line =~= line);
    }
}

/// Two printed values agree, and so does what follows them, if the whole
/// texts agree and what follows is closed.
pub proof fn lemma_value_unambiguous(
    a: Json,
    s: Seq<char>,
    b: Json,
    t: Seq<char>,
    indent: nat,
)
    requires
        plain(a),
        plain(b),
        closed(s),
        closed(t),
        rendered(a, indent) + s == rendered(b, indent) + t,
    ensures
        a == b,
        s == t,
    decreases a, 0nat,
{
    lemma_literals();
    lemma_first_char(a, indent);
    lemma_first_char(b, indent);
    let ra = rendered(a, indent);
    let rb = rendered(b, indent);
    assert((ra + s)[0] == ra[0]);
    assert((rb + t)[0] == rb[0]);
    match a {
        Json::Null => {
            lemma_split(ra, s, rb, t);
        },
        Json::Boolean(on) => {
            assert(b is Boolean);
            assert(b->Boolean_0 == on);
            lemma_split(ra, s, rb, t);
        },
        Json::Number(n) => {
            assert(b is Number);
            lemma_number(n, s, b->Number_0, t);
        },
        Json::String(x) => {
            assert(b is String);
            let y = b->String_0;
            assert(ra + s =~= seq!['"'] + x + seq!['"'] + s);
            assert(rb + t =~= seq!['"'] + y + seq!['"'] + t);
            lemma_quoted(x, s, y, t);
        },
        Json::Array(xs) => {
            assert(b is Array);
            lemma_array_unambiguous(xs, s, b->Array_0, t, indent);
        },
        Json::Object(ma) => {
            assert(b is Object);
            lemma_object_unambiguous(ma, s, b->Object_0, t, indent);
        },
    }
}

/// Two printed arrays agree, and so does what follows them, if the whole
/// texts agree.
pub proof fn lemma_array_unambiguous(
    xs: Seq<Json>,
    s: Seq<char>,
    ys: Seq<Json>,
    t: Seq<char>,
    indent: nat,
)
    requires
        plain(Json::Array(xs)),
        plain(Json::Array(ys)),
        rendered(Json::Array(xs), indent) + s == rendered(Json::Array(ys), indent) + t,
    ensures
        xs == ys,
        s == t,
    decreases xs, xs.len() + 1,
{
    lemma_literals();
    let ra = rendered(Json::Array(xs), indent);
    let rb = rendered(Json::Array(ys), indent);
    let ta = closing(indent, ']', s);
    let tb = closing(indent, ']', t);
    let la = rendered_items(xs, xs.len(), indent);
    let lb = rendered_items(ys, ys.len(), indent);
    assert(Json::Array(xs)->Array_0 == xs);
    assert(Json::Array(ys)->Array_0 == ys);
    assert(ra + s =~= "[\n"@ + (la + ta));
    assert(rb + t =~= "[\n"@ + (lb + tb));
    lemma_cancel("[\n"@, la + ta, lb + tb);
    assert(ta[0] == '\n');
    assert(tb[0] == '\n');
    if xs.len() > 0 {
        lemma_items_front(xs, xs.len(), indent, ta);
    } else {
        assert(la + ta =~= ta);
    }
    if ys.len() > 0 {
        lemma_items_front(ys, ys.len(), indent, tb);
    } else {
        assert(lb + tb =~= tb);
    }
    if xs.len() > 0 && ys.len() > 0 {
        lemma_items_unambiguous(xs, ys, 0, indent, ta, tb);
        assert(xs =~= ys);
    } else if xs.len() > 0 {
        lemma_first_char(xs[0], indent + 2);
        lemma_begins_with_line(
            la + ta,
            rendered(xs[0], indent + 2),
            items_rest(xs, 1, indent, ta),
            indent,
        );
    } else if ys.len() > 0 {
        lemma_first_char(ys[0], indent + 2);
        lemma_begins_with_line(
            lb + tb,
            rendered(ys[0], indent + 2),
            items_rest(ys, 1, indent, tb),
            indent,
        );
    } else {
        assert(xs =~= ys);
    }
    lemma_cancel("\n"@ + blanks((indent - 2) as nat) + seq![']'], s, t);
}

/// Two printed objects agree, and so does what follows them, if the whole
/// texts agree.
pub proof fn lemma_object_unambiguous(
    ma: Members,
    s: Seq<char>,
    mb: Members,
    t: Seq<char>,
    indent: nat,
)
    requires
        plain(Json::Object(ma)),
        plain(Json::Object(mb)),
        rendered(Json::Object(ma), indent) + s == rendered(Json::Object(mb), indent) + t,
    ensures
        ma == mb,
        s == t,
    decreases ma, ma.len() + 1,
{
    lemma_literals();
    let ra = rendered(Json::Object(ma), indent);
    let rb = rendered(Json::Object(mb), indent);
    let ta = closing(indent, '}', s);
    let tb = closing(indent, '}', t);
    let la = rendered_members(ma, ma.len(), indent);
    let lb = rendered_members(mb, mb.len(), indent);
    assert(Json::Object(ma)->Object_0 == ma);
    assert(Json::Object(mb)->Object_0 == mb);
    assert(ra + s =~= "{\n"@ + (la + ta));
    assert(rb + t =~= "{\n"@ + (lb + tb));
    lemma_cancel("{\n"@, la + ta, lb + tb);
    assert(ta[0] == '\n');
    assert(tb[0] == '\n');
    if ma.len() > 0 {
        lemma_members_front(ma, ma.len(), indent, ta);
    } else {
        assert(la + ta =~= ta);
    }
    if mb.len() > 0 {
        lemma_members_front(mb, mb.len(), indent, tb);
    } else {
        assert(lb + tb =~= tb);
    }
    if ma.len() > 0 && mb.len() > 0 {
        lemma_members_unambiguous(ma, mb, 0, indent, ta, tb);
        assert(ma =~= mb);
    } else if ma.len() > 0 {
        let line = "\""@ + ma[0].0 + "\": "@ + rendered(ma[0].1, indent + 2);
        assert(rendered_member(ma[0], indent) =~= blanks(indent) + line);
        assert(line[0] == '"');
        lemma_begins_with_line(la + ta, line, members_rest(ma, 1, indent, ta), indent);
    } else if mb.len() > 0 {
        let line = "\""@ + mb[0].0 + "\": "@ + rendered(mb[0].1, indent + 2);
        assert(rendered_member(mb[0], indent) =~= blanks(indent) + line);
        assert(line[0] == '"');
        lemma_begins_with_line(lb + tb, line, members_rest(mb, 1, indent, tb), indent);
    } else {
        assert(ma =~= mb);
    }
    lemma_cancel("\n"@ + blanks((indent - 2) as nat) + seq!['}'], s, t);
}

/// A text that, after a comma and a line break, is a line and more, begins
/// with the line's first character, which is no line break.
pub proof fn lemma_begins_with_line(
    text: Seq<char>,
    line: Seq<char>,
    more: Seq<char>,
    indent: nat,
)
    requires
        line.len() >= 1,
        line[0] != '\n',
        ",\n"@ + text == ",\n"@ + (blanks(indent) + line) + more,
    ensures
        text.len() >= 1,
        text[0] != '\n',
{
    lemma_line_start(indent, line);
    assert(",\n"@ + (blanks(indent) + line) + more =~= ",\n"@ + ((blanks(indent) + line) + more));
    lemma_cancel(",\n"@, text, (blanks(indent) + line) + more);
    assert(text[0] == (blanks(indent) + line)[0]);
}

/// Two objects whose printed texts agree from member `i` on have the same
/// members from `i` on, and what follows the objects agrees.
pub proof fn lemma_members_unambiguous(
    ma: Members,
    mb: Members,
    i: nat,
    indent: nat,
    ta: Seq<char>,
    tb: Seq<char>,
)
    requires
        plain(Json::Object(ma)),
        plain(Json::Object(mb)),
        i <= ma.len(),
        i <= mb.len(),
        ta.len() >= 1 && ta[0] == '\n',
        tb.len() >= 1 && tb[0] == '\n',
        members_rest(ma, i, indent, ta) == members_rest(mb, i, indent, tb),
    ensures
        ma.len() == mb.len(),
        forall|j: int| i <= j < ma.len() ==> ma[j] == mb[j],
        ta == tb,
    decreases ma, ma.len() - i,
{
    lemma_literals();
    let comma = ",\n"@;
    let rest_a = members_rest(ma, i, indent, ta);
    let rest_b = members_rest(mb, i, indent, tb);
    assert(Json::Object(ma)->Object_0 == ma);
    assert(Json::Object(mb)->Object_0 == mb);
    if i == ma.len() && i == mb.len() {
    } else if i == ma.len() {
        assert(rest_b[0] == ',');
    } else if i == mb.len() {
        assert(rest_a[0] == ',');
    } else {
        let x = ma[i as int];
        let y = mb[i as int];
        let more_a = members_rest(ma, i + 1, indent, ta);
        let more_b = members_rest(mb, i + 1, indent, tb);
        let value_a = rendered(x.1, indent + 2);
        let value_b = rendered(y.1, indent + 2);
        let front = comma + blanks(indent);
        assert(rest_a =~= front + (seq!['"'] + x.0 + seq!['"'] + (seq![':', ' '] + (value_a
            + more_a))));
        assert(rest_b =~= front + (seq!['"'] + y.0 + seq!['"'] + (seq![':', ' '] + (value_b
            + more_b))));
        lemma_cancel(
            front,
            seq!['"'] + x.0 + seq!['"'] + (seq![':', ' '] + (value_a + more_a)),
            seq!['"'] + y.0 + seq!['"'] + (seq![':', ' '] + (value_b + more_b)),
        );
        lemma_quoted(
            x.0,
            seq![':', ' '] + (value_a + more_a),
            y.0,
            seq![':', ' '] + (value_b + more_b),
        );
        lemma_cancel(seq![':', ' '], value_a + more_a, value_b + more_b);
        assert(closed(more_a)) by {
            if i + 1 < ma.len() {
                assert(more_a[0] == ',');
            }
        }
        assert(closed(more_b)) by {
            if i + 1 < mb.len() {
                assert(more_b[0] == ',');
            }
        }
        lemma_value_unambiguous(x.1, more_a, y.1, more_b, indent + 2);
        lemma_members_unambiguous(ma, mb, i + 1, indent, ta, tb);
    }
}

/// Two arrays whose printed texts agree from item `i` on have the same items
/// from `i` on, and what follows the arrays agrees.
pub proof fn lemma_items_unambiguous(
    xs: Seq<Json>,
    ys: Seq<Json>,
    i: nat,
    indent: nat,
    ta: Seq<char>,
    tb: Seq<char>,
)
    requires
        plain(Json::Array(xs)),
        plain(Json::Array(ys)),
        i <= xs.len(),
        i <= ys.len(),
        ta.len() >= 1 && ta[0] == '\n',
        tb.len() >= 1 && tb[0] == '\n',
        items_rest(xs, i, indent, ta) == items_rest(ys, i, indent, tb),
    ensures
        xs.len() == ys.len(),
        forall|j: int| i <= j < xs.len() ==> xs[j] == ys[j],
        ta == tb,
    decreases xs, xs.len() - i,
{
    lemma_literals();
    let comma = ",\n"@;
    let rest_a = items_rest(xs, i, indent, ta);
    let rest_b = items_rest(ys, i, indent, tb);
    assert(Json::Array(xs)->Array_0 == xs);
    assert(Json::Array(ys)->Array_0 == ys);
    if i == xs.len() && i == ys.len() {
    } else if i == xs.len() {
        assert(rest_b[0] == ',');
    } else if i == ys.len() {
        assert(rest_a[0] == ',');
    } else {
        let more_a = items_rest(xs, i + 1, indent, ta);
        let more_b = items_rest(ys, i + 1, indent, tb);
        let value_a = rendered(xs[i as int], indent + 2);
        let value_b = rendered(ys[i as int], indent + 2);
        let front = comma + blanks(indent);
        assert(rest_a =~= front + (value_a + more_a));
        assert(rest_b =~= front + (value_b + more_b));
        lemma_cancel(front, value_a + more_a, value_b + more_b);
        assert(closed(more_a)) by {
            if i + 1 < xs.len() {
                assert(more_a[0] == ',');
            }
        }
        assert(closed(more_b)) by {
            if i + 1 < ys.len() {
                assert(more_b[0] == ',');
            }
        }
        lemma_value_unambiguous(xs[i as int], more_a, ys[i as int], more_b, indent + 2);
        lemma_items_unambiguous(xs, ys, i + 1, indent, ta, tb);
    }
}

/// Two plain values that print alike are the same value.
pub proof fn lemma_printing_is_unambiguous(a: Json, b: Json, indent: nat)
    requires
        plain(a),
        plain(b),
        rendered(a, indent) == rendered(b, indent),
    ensures
        a == b,
{
    let nothing = Seq::<char>::empty();
    assert(rendered(a, indent) + nothing =~= rendered(b, indent) + nothing);
    lemma_value_unambiguous(a, nothing, b, nothing, indent);
}

/// Two documents that a save writes alike hold the same entries besides the
/// welcome entry, if what is written of them is plain.
pub proof fn lemma_saved_text_unambiguous(a: Members, b: Members)
    requires
        plain(Json::Object(saved_members(a))),
        plain(Json::Object(saved_members(b))),
        saved_text(a) == saved_text(b),
    ensures
        saved_members(a) == saved_members(b),
{
    lemma_printing_is_unambiguous(
        Json::Object(saved_members(a)),
        Json::Object(saved_members(b)),
        2,
    );
}

} // verus!
