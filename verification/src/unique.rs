//! The canonical content determines everything it covers: two manifests with the same
//! canonical content have the same channel, context, recipients, subject, body file, body
//! hash and attachments.
use vstd::prelude::*;
use vstd::utf8::{
    char_u32_cast,
    decode_first_scalar,
    encode_scalar,
    encode_utf8,
    encode_utf8_first_scalar,
    length_of_first_scalar,
    valid_first_scalar,
};
use crate::json::{
    canonical_content,
    comma_separated,
    hex_byte,
    json_array,
    json_attachment,
    json_chars,
    json_escape,
    json_member,
    json_object,
    json_optional_string,
    json_string,
    json_string_array,
};
use crate::manifest::{AttachmentModel, Channel, ManifestModel};

verus! {

/// The value of a lowercase hex digit written as an ASCII byte.
spec fn hex_value(b: u8) -> int {
    if b <= 0x39 {
        b - 0x30
    } else {
        b - 0x61 + 10
    }
}

/// Reads one character as `json_escape` writes it: the character and how many bytes it took.
spec fn read_escape(bytes: Seq<u8>) -> Option<(char, int)> {
    if bytes.len() == 0 {
        None
    } else if bytes[0] == 0x5C {
        if bytes.len() < 2 {
            None
        } else if bytes[1] == 0x22 {
            Some(('"', 2))
        } else if bytes[1] == 0x5C {
            Some(('\\', 2))
        } else if bytes[1] == 0x62 {
            Some(('\x08', 2))
        } else if bytes[1] == 0x74 {
            Some(('\t', 2))
        } else if bytes[1] == 0x6E {
            Some(('\n', 2))
        } else if bytes[1] == 0x66 {
            Some(('\x0C', 2))
        } else if bytes[1] == 0x72 {
            Some(('\r', 2))
        } else if bytes[1] == 0x75 && bytes.len() >= 6 {
            Some((((hex_value(bytes[4]) * 16 + hex_value(bytes[5])) as u32) as char, 6))
        } else {
            None
        }
    } else {
        Some(((decode_first_scalar(bytes)) as char, length_of_first_scalar(bytes)))
    }
}

proof fn lemma_ascii_lead_byte(v: u32)
    requires
        v <= 0x7F,
    ensures
        ((v & 0x7F) as u8) as u32 == v,
{
    assert(((v & 0x7F) as u8) as u32 == v) by (bit_vector)
        requires
            v <= 0x7F,
    ;
}

proof fn lemma_wide_lead_byte(v: u32)
    ensures
        (0xC0 | ((v >> 6) & 0x1F) as u8) >= 0xC0,
        (0xE0 | ((v >> 12) & 0x0F) as u8) >= 0xC0,
        (0xF0 | ((v >> 18) & 0x7) as u8) >= 0xC0,
{
    assert((0xC0 | ((v >> 6) & 0x1F) as u8) >= 0xC0) by (bit_vector);
    assert((0xE0 | ((v >> 12) & 0x0F) as u8) >= 0xC0) by (bit_vector);
    assert((0xF0 | ((v >> 18) & 0x7) as u8) >= 0xC0) by (bit_vector);
}

/// The first byte of an escaped character, and that it is never a quote.
proof fn lemma_escape_first_byte(c: char)
    ensures
        json_escape(c).len() > 0,
        json_escape(c)[0] != 0x22,
        (json_escape(c)[0] == 0x5C) == (c == '"' || c == '\\' || (c as u32) < 0x20),
{
    let v = c as u32;
    if v >= 0x20 && v != 0x22 && v != 0x5C {
        if v <= 0x7F {
            lemma_ascii_lead_byte(v);
        } else {
            lemma_wide_lead_byte(v);
        }
    }
}

proof fn lemma_hex_roundtrip(v: u32)
    requires
        v < 0x20,
    ensures
        ((hex_value(hex_byte((v / 16) as nat)) * 16 + hex_value(hex_byte((v % 16) as nat))) as u32)
            == v,
{
}

/// Reading an escaped character gives it back, with the number of bytes it took.
proof fn lemma_read_escape(c: char, x: Seq<u8>)
    ensures
        read_escape(json_escape(c) + x) == Some((c, json_escape(c).len() as int)),
{
    let v = c as u32;
    let e = json_escape(c);
    let b = e + x;
    lemma_escape_first_byte(c);
    assert(b[0] == e[0]);
    if v == 0x22 || v == 0x5C || v < 0x20 {
        assert(b[1] == e[1]);
        if v < 0x20 && v != 0x08 && v != 0x09 && v != 0x0A && v != 0x0C && v != 0x0D {
            assert(b[4] == e[4] && b[5] == e[5]);
            lemma_hex_roundtrip(v);
            char_u32_cast(c, v);
        } else {
            char_u32_cast(c, v);
        }
    } else {
        let one = seq![c];
        assert(one.drop_first() =~= Seq::<char>::empty());
        assert(encode_utf8(Seq::<char>::empty()) =~= Seq::<u8>::empty());
        assert(one[0] == c);
        assert(encode_utf8(one) == encode_scalar(one[0] as u32) + encode_utf8(one.drop_first()));
        assert(encode_utf8(one) =~= encode_scalar(v));
        encode_utf8_first_scalar(one);
        assert(e == encode_scalar(v));
        assert(valid_first_scalar(e));
        assert forall|i: int| 0 <= i < e.len() implies b[i] == e[i] by {}
        assert(decode_first_scalar(b) == decode_first_scalar(e));
        assert(length_of_first_scalar(b) == length_of_first_scalar(e));
        char_u32_cast(c, v);
    }
}

/// Escaped characters form a prefix code: the first character and the rest are determined.
proof fn lemma_escape_unique(c1: char, c2: char, x: Seq<u8>, y: Seq<u8>)
    requires
        json_escape(c1) + x == json_escape(c2) + y,
    ensures
        c1 == c2,
        x == y,
{
    lemma_read_escape(c1, x);
    lemma_read_escape(c2, y);
    let n = json_escape(c1).len() as int;
    assert(x =~= (json_escape(c1) + x).skip(n));
    assert(y =~= (json_escape(c2) + y).skip(n));
}

/// `json_chars` read from the front.
proof fn lemma_json_chars_first(s: Seq<char>)
    requires
        s.len() > 0,
    ensures
        json_chars(s) == json_escape(s[0]) + json_chars(s.drop_first()),
    decreases s.len(),
{
    if s.len() > 1 {
        lemma_json_chars_first(s.drop_last());
        assert(s.drop_last().drop_first() =~= s.drop_first().drop_last());
        assert(s.drop_first().last() == s.last());
        assert(json_chars(s) =~= json_escape(s[0]) + json_chars(s.drop_first()));
    } else {
        assert(s.drop_last() =~= Seq::<char>::empty());
        assert(s.drop_first() =~= Seq::<char>::empty());
        assert(json_chars(s) =~= json_escape(s[0]) + json_chars(s.drop_first()));
    }
}

proof fn lemma_chars_unique(a: Seq<char>, b: Seq<char>, x: Seq<u8>, y: Seq<u8>)
    requires
        json_chars(a) + (seq![0x22u8] + x) == json_chars(b) + (seq![0x22u8] + y),
    ensures
        a == b,
        x == y,
    decreases a.len(),
{
    if a.len() == 0 && b.len() == 0 {
        assert(json_chars(a) =~= Seq::<u8>::empty());
        assert(json_chars(b) =~= Seq::<u8>::empty());
        assert(x =~= (seq![0x22u8] + x).drop_first());
        assert(y =~= (seq![0x22u8] + y).drop_first());
        assert(a =~= b);
    } else if a.len() == 0 {
        lemma_json_chars_first(b);
        lemma_escape_first_byte(b[0]);
        assert(json_chars(a) =~= Seq::<u8>::empty());
        assert((json_chars(b) + (seq![0x22u8] + y))[0] == json_escape(b[0])[0]);
    } else if b.len() == 0 {
        lemma_json_chars_first(a);
        lemma_escape_first_byte(a[0]);
        assert(json_chars(b) =~= Seq::<u8>::empty());
        assert((json_chars(a) + (seq![0x22u8] + x))[0] == json_escape(a[0])[0]);
    } else {
        lemma_json_chars_first(a);
        lemma_json_chars_first(b);
        let ra = json_chars(a.drop_first()) + (seq![0x22u8] + x);
        let rb = json_chars(b.drop_first()) + (seq![0x22u8] + y);
        assert(json_chars(a) + (seq![0x22u8] + x) =~= json_escape(a[0]) + ra);
        assert(json_chars(b) + (seq![0x22u8] + y) =~= json_escape(b[0]) + rb);
        lemma_escape_unique(a[0], b[0], ra, rb);
        lemma_chars_unique(a.drop_first(), b.drop_first(), x, y);
        assert(a =~= seq![a[0]] + a.drop_first());
        assert(b =~= seq![b[0]] + b.drop_first());
    }
}

/// JSON strings are self-delimiting: the string and what follows it are determined.
pub proof fn lemma_json_string_unique(a: Seq<char>, b: Seq<char>, x: Seq<u8>, y: Seq<u8>)
    requires
        json_string(a) + x == json_string(b) + y,
    ensures
        a == b,
        x == y,
{
    let lhs = json_string(a) + x;
    let rhs = json_string(b) + y;
    assert(lhs.drop_first() =~= json_chars(a) + (seq![0x22u8] + x));
    assert(rhs.drop_first() =~= json_chars(b) + (seq![0x22u8] + y));
    lemma_chars_unique(a, b, x, y);
}

/// `p + u == p + v` leaves `u == v`.
proof fn lemma_strip(p: Seq<u8>, u: Seq<u8>, v: Seq<u8>)
    requires
        p + u == p + v,
    ensures
        u == v,
{
    assert(u =~= (p + u).skip(p.len() as int));
    assert(v =~= (p + v).skip(p.len() as int));
}

/// `comma_separated` read from the front.
proof fn lemma_comma_front(items: Seq<Seq<u8>>, t: Seq<u8>)
    requires
        items.len() >= 2,
    ensures
        comma_separated(items) + t == items[0] + (seq![0x2Cu8] + (comma_separated(items.drop_first()) + t)),
    decreases items.len(),
{
    reveal(comma_separated);
    if items.len() == 2 {
        assert(items.drop_last() =~= seq![items[0]]);
        assert(items.drop_first() =~= seq![items[1]]);
        assert(comma_separated(items) + t =~= items[0] + (seq![0x2Cu8] + (comma_separated(
            items.drop_first(),
        ) + t)));
    } else {
        lemma_comma_front(items.drop_last(), seq![0x2Cu8] + items.last() + t);
        assert(items.drop_last().drop_first() =~= items.drop_first().drop_last());
        assert(items.drop_first().last() == items.last());
        assert(comma_separated(items) + t =~= comma_separated(items.drop_last()) + (seq![0x2Cu8]
            + items.last() + t));
        assert(comma_separated(items.drop_first()) == comma_separated(items.drop_first().drop_last())
            + seq![0x2Cu8] + items.drop_first().last());
        assert(comma_separated(items) + t =~= items[0] + (seq![0x2Cu8] + (comma_separated(
            items.drop_first(),
        ) + t)));
    }
}

proof fn lemma_comma_one(items: Seq<Seq<u8>>)
    requires
        items.len() == 1,
    ensures
        comma_separated(items) == items[0],
{
    reveal(comma_separated);
}

proof fn lemma_comma_none(items: Seq<Seq<u8>>)
    requires
        items.len() == 0,
    ensures
        comma_separated(items) == Seq::<u8>::empty(),
{
    reveal(comma_separated);
}

/// `enc(a) + x == enc(b) + y` determines `a` and `x`.
pub open spec fn decodes_at<T>(enc: spec_fn(T) -> Seq<u8>, a: T, b: T, x: Seq<u8>, y: Seq<u8>) -> bool {
    enc(a) + x == enc(b) + y ==> a == b && x == y
}

/// `enc` writes values that a reader can take apart again, and never starts with `]`.
pub open spec fn self_delimiting<T>(enc: spec_fn(T) -> Seq<u8>) -> bool {
    &&& forall|a: T| (#[trigger] enc(a)).len() > 0 && enc(a)[0] != 0x5Du8
    &&& forall|a: T, b: T, x: Seq<u8>, y: Seq<u8>| #[trigger] decodes_at(enc, a, b, x, y)
}

proof fn lemma_items_unique<T>(enc: spec_fn(T) -> Seq<u8>, a: Seq<T>, b: Seq<T>, x: Seq<u8>, y: Seq<u8>)
    requires
        self_delimiting(enc),
        a.len() > 0,
        b.len() > 0,
        comma_separated(a.map_values(enc)) + (seq![0x5Du8] + x) == comma_separated(
            b.map_values(enc),
        ) + (seq![0x5Du8] + y),
    ensures
        a == b,
        x == y,
    decreases a.len(),
{
    let ma = a.map_values(enc);
    let mb = b.map_values(enc);
    let ra = if a.len() == 1 {
        seq![0x5Du8] + x
    } else {
        seq![0x2Cu8] + (comma_separated(ma.drop_first()) + (seq![0x5Du8] + x))
    };
    let rb = if b.len() == 1 {
        seq![0x5Du8] + y
    } else {
        seq![0x2Cu8] + (comma_separated(mb.drop_first()) + (seq![0x5Du8] + y))
    };
    if a.len() == 1 {
        lemma_comma_one(ma);
    } else {
        lemma_comma_front(ma, seq![0x5Du8] + x);
    }
    if b.len() == 1 {
        lemma_comma_one(mb);
    } else {
        lemma_comma_front(mb, seq![0x5Du8] + y);
    }
    assert(enc(a[0]) + ra == enc(b[0]) + rb);
    assert(decodes_at(enc, a[0], b[0], ra, rb));
    assert(ra[0] == rb[0]);
    if a.len() == 1 {
        assert(b.len() == 1);
        lemma_strip(seq![0x5Du8], x, y);
        assert(a =~= b);
    } else {
        assert(b.len() != 1);
        lemma_strip(
            seq![0x2Cu8],
            comma_separated(ma.drop_first()) + (seq![0x5Du8] + x),
            comma_separated(mb.drop_first()) + (seq![0x5Du8] + y),
        );
        assert(ma.drop_first() =~= a.drop_first().map_values(enc));
        assert(mb.drop_first() =~= b.drop_first().map_values(enc));
        lemma_items_unique(enc, a.drop_first(), b.drop_first(), x, y);
        assert(a =~= seq![a[0]] + a.drop_first());
        assert(b =~= seq![b[0]] + b.drop_first());
    }
}

proof fn lemma_array_unique<T>(enc: spec_fn(T) -> Seq<u8>, a: Seq<T>, b: Seq<T>, x: Seq<u8>, y: Seq<u8>)
    requires
        self_delimiting(enc),
        json_array(a.map_values(enc)) + x == json_array(b.map_values(enc)) + y,
    ensures
        a == b,
        x == y,
{
    let ma = a.map_values(enc);
    let mb = b.map_values(enc);
    assert(json_array(ma) + x =~= seq![0x5Bu8] + (comma_separated(ma) + (seq![0x5Du8] + x)));
    assert(json_array(mb) + y =~= seq![0x5Bu8] + (comma_separated(mb) + (seq![0x5Du8] + y)));
    lemma_strip(
        seq![0x5Bu8],
        comma_separated(ma) + (seq![0x5Du8] + x),
        comma_separated(mb) + (seq![0x5Du8] + y),
    );
    if a.len() == 0 {
        lemma_comma_none(ma);
        assert((comma_separated(ma) + (seq![0x5Du8] + x))[0] == 0x5Du8);
    } else {
        lemma_comma_front_or_one(ma, seq![0x5Du8] + x);
        assert(enc(a[0]).len() > 0 && enc(a[0])[0] != 0x5Du8);
    }
    if b.len() == 0 {
        lemma_comma_none(mb);
        assert((comma_separated(mb) + (seq![0x5Du8] + y))[0] == 0x5Du8);
    } else {
        lemma_comma_front_or_one(mb, seq![0x5Du8] + y);
        assert(enc(b[0]).len() > 0 && enc(b[0])[0] != 0x5Du8);
    }
    if a.len() == 0 && b.len() == 0 {
        assert(comma_separated(ma) + (seq![0x5Du8] + x) =~= seq![0x5Du8] + x);
        assert(comma_separated(mb) + (seq![0x5Du8] + y) =~= seq![0x5Du8] + y);
        lemma_strip(seq![0x5Du8], x, y);
        assert(a =~= b);
    } else if a.len() > 0 && b.len() > 0 {
        lemma_items_unique(enc, a, b, x, y);
    }
}

proof fn lemma_comma_front_or_one(items: Seq<Seq<u8>>, t: Seq<u8>)
    requires
        items.len() >= 1,
        items[0].len() > 0,
    ensures
        (comma_separated(items) + t)[0] == items[0][0],
{
    if items.len() == 1 {
        lemma_comma_one(items);
    } else {
        lemma_comma_front(items, t);
    }
}

/// How a JSON string list writes each element.
spec fn string_enc() -> spec_fn(Seq<char>) -> Seq<u8> {
    |s: Seq<char>| json_string(s)
}

/// How the canonical content writes each attachment.
spec fn attachment_enc() -> spec_fn(AttachmentModel) -> Seq<u8> {
    |a: AttachmentModel| json_attachment(a)
}

proof fn lemma_strings_self_delimiting()
    ensures
        self_delimiting(string_enc()),
{
    assert forall|a: Seq<char>| (#[trigger] string_enc()(a)).len() > 0 && string_enc()(a)[0]
        != 0x5Du8 by {
        assert(json_string(a)[0] == 0x22u8);
    }
    assert forall|a: Seq<char>, b: Seq<char>, x: Seq<u8>, y: Seq<u8>|
        #[trigger] decodes_at(string_enc(), a, b, x, y) by {
        if string_enc()(a) + x == string_enc()(b) + y {
            lemma_json_string_unique(a, b, x, y);
        }
    }
}

/// JSON string lists are self-delimiting.
pub proof fn lemma_string_array_unique(a: Seq<Seq<char>>, b: Seq<Seq<char>>, x: Seq<u8>, y: Seq<u8>)
    requires
        json_string_array(a) + x == json_string_array(b) + y,
    ensures
        a == b,
        x == y,
{
    lemma_strings_self_delimiting();
    assert(a.map_values(|s: Seq<char>| json_string(s)) =~= a.map_values(string_enc()));
    assert(b.map_values(|s: Seq<char>| json_string(s)) =~= b.map_values(string_enc()));
    lemma_array_unique(string_enc(), a, b, x, y);
}

/// An attachment's JSON object is self-delimiting.
pub proof fn lemma_attachment_unique(a: AttachmentModel, b: AttachmentModel, x: Seq<u8>, y: Seq<u8>)
    requires
        json_attachment(a) + x == json_attachment(b) + y,
    ensures
        a == b,
        x == y,
{
    let ka = json_member("path"@, json_string(a.path));
    let ha = json_member("sha256"@, json_string(a.sha256));
    let kb = json_member("path"@, json_string(b.path));
    let hb = json_member("sha256"@, json_string(b.sha256));
    lemma_comma_front(seq![ka, ha], seq![0x7Du8] + x);
    lemma_comma_front(seq![kb, hb], seq![0x7Du8] + y);
    lemma_comma_one(seq![ha]);
    lemma_comma_one(seq![hb]);
    assert(seq![ka, ha].drop_first() =~= seq![ha]);
    assert(seq![kb, hb].drop_first() =~= seq![hb]);
    let pre = seq![0x7Bu8] + json_string("path"@) + seq![0x3Au8];
    let mid = seq![0x2Cu8] + json_string("sha256"@) + seq![0x3Au8];
    let ra = json_string(a.path) + (mid + (json_string(a.sha256) + (seq![0x7Du8] + x)));
    let rb = json_string(b.path) + (mid + (json_string(b.sha256) + (seq![0x7Du8] + y)));
    assert(json_attachment(a) + x =~= seq![0x7Bu8] + (comma_separated(seq![ka, ha]) + (seq![0x7Du8]
        + x)));
    assert(json_attachment(b) + y =~= seq![0x7Bu8] + (comma_separated(seq![kb, hb]) + (seq![0x7Du8]
        + y)));
    assert(json_attachment(a) + x =~= pre + ra);
    assert(json_attachment(b) + y =~= pre + rb);
    lemma_strip(pre, ra, rb);
    lemma_json_string_unique(
        a.path,
        b.path,
        mid + (json_string(a.sha256) + (seq![0x7Du8] + x)),
        mid + (json_string(b.sha256) + (seq![0x7Du8] + y)),
    );
    lemma_strip(mid, json_string(a.sha256) + (seq![0x7Du8] + x), json_string(b.sha256) + (
    seq![0x7Du8] + y));
    lemma_json_string_unique(a.sha256, b.sha256, seq![0x7Du8] + x, seq![0x7Du8] + y);
    lemma_strip(seq![0x7Du8], x, y);
}

proof fn lemma_attachments_self_delimiting()
    ensures
        self_delimiting(attachment_enc()),
{
    assert forall|a: AttachmentModel| (#[trigger] attachment_enc()(a)).len() > 0
        && attachment_enc()(a)[0] != 0x5Du8 by {
        assert(json_attachment(a)[0] == 0x7Bu8);
    }
    assert forall|a: AttachmentModel, b: AttachmentModel, x: Seq<u8>, y: Seq<u8>|
        #[trigger] decodes_at(attachment_enc(), a, b, x, y) by {
        if attachment_enc()(a) + x == attachment_enc()(b) + y {
            lemma_attachment_unique(a, b, x, y);
        }
    }
}

/// The attachment list of the canonical content is self-delimiting.
pub proof fn lemma_attachment_array_unique(
    a: Seq<AttachmentModel>,
    b: Seq<AttachmentModel>,
    x: Seq<u8>,
    y: Seq<u8>,
)
    requires
        json_array(a.map_values(|m: AttachmentModel| json_attachment(m))) + x == json_array(
            b.map_values(|m: AttachmentModel| json_attachment(m)),
        ) + y,
    ensures
        a == b,
        x == y,
{
    lemma_attachments_self_delimiting();
    assert(a.map_values(|m: AttachmentModel| json_attachment(m)) =~= a.map_values(attachment_enc()));
    assert(b.map_values(|m: AttachmentModel| json_attachment(m)) =~= b.map_values(attachment_enc()));
    lemma_array_unique(attachment_enc(), a, b, x, y);
}

/// An optional string (`null` or a JSON string) is self-delimiting.
pub proof fn lemma_optional_string_unique(
    a: Option<Seq<char>>,
    b: Option<Seq<char>>,
    x: Seq<u8>,
    y: Seq<u8>,
)
    requires
        json_optional_string(a) + x == json_optional_string(b) + y,
    ensures
        a == b,
        x == y,
{
    let la = json_optional_string(a) + x;
    let lb = json_optional_string(b) + y;
    match (a, b) {
        (Some(sa), Some(sb)) => {
            lemma_json_string_unique(sa, sb, x, y);
        },
        (None, None) => {
            lemma_strip(json_optional_string(a), x, y);
        },
        (Some(sa), None) => {
            assert(la[0] == 0x22u8);
            assert(lb[0] == 0x6Eu8);
        },
        (None, Some(sb)) => {
            assert(la[0] == 0x6Eu8);
            assert(lb[0] == 0x22u8);
        },
    }
}

/// Distinct channels have distinct names.
pub proof fn lemma_channel_names_distinct(c1: Channel, c2: Channel)
    requires
        c1.name() == c2.name(),
    ensures
        c1 == c2,
{
    reveal_strlit("email");
    reveal_strlit("slack");
    reveal_strlit("discord");
    reveal_strlit("social");
    reveal_strlit("form");
    assert("email"@[0] == 'e' && "slack"@[0] == 's' && "discord"@[0] == 'd' && "social"@[0]
        == 's' && "form"@[0] == 'f');
    assert("email"@.len() == 5 && "slack"@.len() == 5 && "discord"@.len() == 7 && "social"@.len()
        == 6 && "form"@.len() == 4);
    match c1 {
        Channel::Email => assert(c1.name()[0] == 'e'),
        Channel::Slack => assert(c1.name()[0] == 's' && c1.name().len() == 5),
        Channel::Discord => assert(c1.name()[0] == 'd'),
        Channel::Social => assert(c1.name()[0] == 's' && c1.name().len() == 6),
        Channel::Form => assert(c1.name()[0] == 'f'),
    }
}

/// The members `s1` and `s2` open with the same key; what follows the key is compared.
proof fn lemma_member_next(
    s1: Seq<Seq<u8>>,
    s2: Seq<Seq<u8>>,
    key: Seq<char>,
    v1: Seq<u8>,
    v2: Seq<u8>,
    t: Seq<u8>,
)
    requires
        s1.len() >= 2,
        s2.len() >= 2,
        s1[0] == json_member(key, v1),
        s2[0] == json_member(key, v2),
        comma_separated(s1) + t == comma_separated(s2) + t,
    ensures
        v1 + (seq![0x2Cu8] + (comma_separated(s1.drop_first()) + t)) == v2 + (seq![0x2Cu8] + (
        comma_separated(s2.drop_first()) + t)),
{
    lemma_comma_front(s1, t);
    lemma_comma_front(s2, t);
    let p = json_string(key) + seq![0x3Au8];
    let r1 = v1 + (seq![0x2Cu8] + (comma_separated(s1.drop_first()) + t));
    let r2 = v2 + (seq![0x2Cu8] + (comma_separated(s2.drop_first()) + t));
    assert(comma_separated(s1) + t =~= p + r1);
    assert(comma_separated(s2) + t =~= p + r2);
    lemma_strip(p, r1, r2);
}

/// The last members `s1` and `s2` have the same key; what follows the key is compared.
proof fn lemma_member_last(
    s1: Seq<Seq<u8>>,
    s2: Seq<Seq<u8>>,
    key: Seq<char>,
    v1: Seq<u8>,
    v2: Seq<u8>,
    t: Seq<u8>,
)
    requires
        s1.len() == 1,
        s2.len() == 1,
        s1[0] == json_member(key, v1),
        s2[0] == json_member(key, v2),
        comma_separated(s1) + t == comma_separated(s2) + t,
    ensures
        v1 + t == v2 + t,
{
    lemma_comma_one(s1);
    lemma_comma_one(s2);
    let p = json_string(key) + seq![0x3Au8];
    assert(comma_separated(s1) + t =~= p + (v1 + t));
    assert(comma_separated(s2) + t =~= p + (v2 + t));
    lemma_strip(p, v1 + t, v2 + t);
}

/// The canonical content covers the channel, context, recipients, subject, body file,
/// outbound-body hash and attachments of a manifest.
pub open spec fn same_covered_content(m1: ManifestModel, m2: ManifestModel) -> bool {
    &&& m1.channel == m2.channel
    &&& m1.context == m2.context
    &&& m1.to == m2.to
    &&& m1.cc == m2.cc
    &&& m1.bcc == m2.bcc
    &&& m1.subject == m2.subject
    &&& m1.body_file == m2.body_file
    &&& m1.attachments == m2.attachments
}

/// Equal canonical contents (for manifests of the same schema) come from manifests that agree
/// on everything the canonical content covers, with the same outbound-body hash.
pub proof fn lemma_canonical_content_unique(
    m1: ManifestModel,
    h1: Seq<char>,
    m2: ManifestModel,
    h2: Seq<char>,
)
    requires
        m1.schema == m2.schema,
        canonical_content(m1, h1) == canonical_content(m2, h2),
    ensures
        same_covered_content(m1, m2),
        h1 == h2,
{
    let t = seq![0x7Du8];
    let c = seq![0x2Cu8];
    let s1 = seq![
        json_member("schema"@, encode_utf8(crate::text::decimal(m1.schema as nat))),
        json_member("channel"@, json_string(m1.channel.name())),
        json_member("context"@, json_string(m1.context)),
        json_member("to"@, json_string_array(m1.to)),
        json_member("cc"@, json_string_array(m1.cc)),
        json_member("bcc"@, json_string_array(m1.bcc)),
        json_member("subject"@, json_optional_string(m1.subject)),
        json_member("body_file"@, json_string(m1.body_file)),
        json_member("body_sha256"@, json_string(h1)),
        json_member("attachments"@, json_array(m1.attachments.map_values(|a: AttachmentModel| json_attachment(a)))),
    ];
    let s2 = seq![
        json_member("schema"@, encode_utf8(crate::text::decimal(m2.schema as nat))),
        json_member("channel"@, json_string(m2.channel.name())),
        json_member("context"@, json_string(m2.context)),
        json_member("to"@, json_string_array(m2.to)),
        json_member("cc"@, json_string_array(m2.cc)),
        json_member("bcc"@, json_string_array(m2.bcc)),
        json_member("subject"@, json_optional_string(m2.subject)),
        json_member("body_file"@, json_string(m2.body_file)),
        json_member("body_sha256"@, json_string(h2)),
        json_member("attachments"@, json_array(m2.attachments.map_values(|a: AttachmentModel| json_attachment(a)))),
    ];
    assert(canonical_content(m1, h1) == json_object(s1));
    assert(canonical_content(m2, h2) == json_object(s2));
    assert(json_object(s1) =~= seq![0x7Bu8] + (comma_separated(s1) + t));
    assert(json_object(s2) =~= seq![0x7Bu8] + (comma_separated(s2) + t));
    lemma_strip(seq![0x7Bu8], comma_separated(s1) + t, comma_separated(s2) + t);

    // schema
    let v1 = encode_utf8(crate::text::decimal(m1.schema as nat));
    lemma_member_next(s1, s2, "schema"@, v1, v1, t);
    assert(v1 + (c + (comma_separated(s1.drop_first()) + t)) =~= (v1 + c) + (comma_separated(
        s1.drop_first(),
    ) + t));
    assert(v1 + (c + (comma_separated(s2.drop_first()) + t)) =~= (v1 + c) + (comma_separated(
        s2.drop_first(),
    ) + t));
    lemma_strip(v1 + c, comma_separated(s1.drop_first()) + t, comma_separated(s2.drop_first()) + t);
    let a1 = s1.drop_first();
    let a2 = s2.drop_first();
    // channel
    lemma_member_next(a1, a2, "channel"@, json_string(m1.channel.name()), json_string(m2.channel.name()), t);
    lemma_json_string_unique(
        m1.channel.name(),
        m2.channel.name(),
        c + (comma_separated(a1.drop_first()) + t),
        c + (comma_separated(a2.drop_first()) + t),
    );
    lemma_channel_names_distinct(m1.channel, m2.channel);
    lemma_strip(c, comma_separated(a1.drop_first()) + t, comma_separated(a2.drop_first()) + t);
    let b1 = a1.drop_first();
    let b2 = a2.drop_first();
    // context
    lemma_member_next(b1, b2, "context"@, json_string(m1.context), json_string(m2.context), t);
    lemma_json_string_unique(
        m1.context,
        m2.context,
        c + (comma_separated(b1.drop_first()) + t),
        c + (comma_separated(b2.drop_first()) + t),
    );
    lemma_strip(c, comma_separated(b1.drop_first()) + t, comma_separated(b2.drop_first()) + t);
    let d1 = b1.drop_first();
    let d2 = b2.drop_first();
    // to
    lemma_member_next(d1, d2, "to"@, json_string_array(m1.to), json_string_array(m2.to), t);
    lemma_string_array_unique(
        m1.to,
        m2.to,
        c + (comma_separated(d1.drop_first()) + t),
        c + (comma_separated(d2.drop_first()) + t),
    );
    lemma_strip(c, comma_separated(d1.drop_first()) + t, comma_separated(d2.drop_first()) + t);
    let e1 = d1.drop_first();
    let e2 = d2.drop_first();
    // cc
    lemma_member_next(e1, e2, "cc"@, json_string_array(m1.cc), json_string_array(m2.cc), t);
    lemma_string_array_unique(
        m1.cc,
        m2.cc,
        c + (comma_separated(e1.drop_first()) + t),
        c + (comma_separated(e2.drop_first()) + t),
    );
    lemma_strip(c, comma_separated(e1.drop_first()) + t, comma_separated(e2.drop_first()) + t);
    let f1 = e1.drop_first();
    let f2 = e2.drop_first();
    // bcc
    lemma_member_next(f1, f2, "bcc"@, json_string_array(m1.bcc), json_string_array(m2.bcc), t);
    lemma_string_array_unique(
        m1.bcc,
        m2.bcc,
        c + (comma_separated(f1.drop_first()) + t),
        c + (comma_separated(f2.drop_first()) + t),
    );
    lemma_strip(c, comma_separated(f1.drop_first()) + t, comma_separated(f2.drop_first()) + t);
    let g1 = f1.drop_first();
    let g2 = f2.drop_first();
    // subject
    lemma_member_next(g1, g2, "subject"@, json_optional_string(m1.subject), json_optional_string(m2.subject), t);
    lemma_optional_string_unique(
        m1.subject,
        m2.subject,
        c + (comma_separated(g1.drop_first()) + t),
        c + (comma_separated(g2.drop_first()) + t),
    );
    lemma_strip(c, comma_separated(g1.drop_first()) + t, comma_separated(g2.drop_first()) + t);
    let i1 = g1.drop_first();
    let i2 = g2.drop_first();
    // body file
    lemma_member_next(i1, i2, "body_file"@, json_string(m1.body_file), json_string(m2.body_file), t);
    lemma_json_string_unique(
        m1.body_file,
        m2.body_file,
        c + (comma_separated(i1.drop_first()) + t),
        c + (comma_separated(i2.drop_first()) + t),
    );
    lemma_strip(c, comma_separated(i1.drop_first()) + t, comma_separated(i2.drop_first()) + t);
    let j1 = i1.drop_first();
    let j2 = i2.drop_first();
    // body hash
    lemma_member_next(j1, j2, "body_sha256"@, json_string(h1), json_string(h2), t);
    lemma_json_string_unique(
        h1,
        h2,
        c + (comma_separated(j1.drop_first()) + t),
        c + (comma_separated(j2.drop_first()) + t),
    );
    lemma_strip(c, comma_separated(j1.drop_first()) + t, comma_separated(j2.drop_first()) + t);
    let k1 = j1.drop_first();
    let k2 = j2.drop_first();
    // attachments
    let att1 = json_array(m1.attachments.map_values(|a: AttachmentModel| json_attachment(a)));
    let att2 = json_array(m2.attachments.map_values(|a: AttachmentModel| json_attachment(a)));
    lemma_member_last(k1, k2, "attachments"@, att1, att2, t);
    lemma_attachment_array_unique(m1.attachments, m2.attachments, t, t);
}

} // verus!
