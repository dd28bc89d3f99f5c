//! The canonical JSON text of the content that an approval covers.
use vstd::prelude::*;
use vstd::utf8::{encode_scalar, encode_utf8};
use crate::manifest::{Attachment, AttachmentModel, Manifest, ManifestModel};
use crate::text::{decimal, decimal_string};

verus! {

/// The lowercase hex digit, as an ASCII byte, for `v < 16`.
pub open spec fn hex_byte(v: nat) -> u8 {
    if v < 10 {
        (0x30 + v) as u8
    } else {
        (0x61 + v - 10) as u8
    }
}

/// How `serde_json` writes the character `c` inside a JSON string: `"` and `\` and the
/// control characters below U+0020 are escaped (`\b \t \n \f \r` where JSON has a short
/// form, `\u00XX` with lowercase hex otherwise); every other character is written as its
/// UTF-8 encoding.
pub open spec fn json_escape(c: char) -> Seq<u8> {
    let v = c as u32;
    if v == 0x22 {
        seq![0x5Cu8, 0x22u8]
    } else if v == 0x5C {
        seq![0x5Cu8, 0x5Cu8]
    } else if v == 0x08 {
        seq![0x5Cu8, 0x62u8]
    } else if v == 0x09 {
        seq![0x5Cu8, 0x74u8]
    } else if v == 0x0A {
        seq![0x5Cu8, 0x6Eu8]
    } else if v == 0x0C {
        seq![0x5Cu8, 0x66u8]
    } else if v == 0x0D {
        seq![0x5Cu8, 0x72u8]
    } else if v < 0x20 {
        seq![
            0x5Cu8,
            0x75u8,
            0x30u8,
            0x30u8,
            hex_byte((v / 16) as nat),
            hex_byte((v % 16) as nat),
        ]
    } else {
        encode_scalar(v)
    }
}

/// The escaped characters of `s`, without quotes.
pub open spec fn json_chars(s: Seq<char>) -> Seq<u8>
    decreases s.len(),
{
    if s.len() == 0 {
        seq![]
    } else {
        json_chars(s.drop_last()) + json_escape(s.last())
    }
}

/// `s` as a JSON string: quoted, with its characters escaped.
pub open spec fn json_string(s: Seq<char>) -> Seq<u8> {
    seq![0x22u8] + json_chars(s) + seq![0x22u8]
}

/// `serde_json::to_vec` on a `str`: the JSON string for `s`. The contract states the whole
/// encoding as the crate's string formatter writes it (see [`json_escape`]). Writing into a
/// `Vec` cannot fail, so the call always returns its bytes.
#[verifier::external_body]
fn json_string_bytes(s: &str) -> (res: Vec<u8>)
    ensures
        res@ == json_string(s@),
{
    serde_json::to_vec(s).expect("serializing a str into a Vec cannot fail")
}

proof fn lemma_comma_push(ms: Seq<Seq<u8>>, m: Seq<u8>)
    requires
        ms.len() > 0,
    ensures
        comma_separated(ms.push(m)) == comma_separated(ms) + seq![0x2Cu8] + m,
{
    reveal(comma_separated);
    assert(ms.push(m).drop_last() =~= ms);
}

proof fn lemma_comma_single(m: Seq<u8>)
    ensures
        comma_separated(seq![m]) == m,
        comma_separated(Seq::<Seq<u8>>::empty()) == Seq::<u8>::empty(),
{
    reveal(comma_separated);
}

/// `items` separated by commas.
#[verifier::opaque]
pub open spec fn comma_separated(items: Seq<Seq<u8>>) -> Seq<u8>
    decreases items.len(),
{
    if items.len() == 0 {
        seq![]
    } else if items.len() == 1 {
        items[0]
    } else {
        comma_separated(items.drop_last()) + seq![0x2Cu8] + items.last()
    }
}

/// A JSON array of the given encoded elements.
pub open spec fn json_array(items: Seq<Seq<u8>>) -> Seq<u8> {
    seq![0x5Bu8] + comma_separated(items) + seq![0x5Du8]
}

/// A JSON array of strings.
pub open spec fn json_string_array(items: Seq<Seq<char>>) -> Seq<u8> {
    json_array(items.map_values(|s: Seq<char>| json_string(s)))
}

/// An object member: the key as a JSON string, a colon, the value.
pub open spec fn json_member(key: Seq<char>, value: Seq<u8>) -> Seq<u8> {
    json_string(key) + seq![0x3Au8] + value
}

/// A JSON object of the given encoded members.
pub open spec fn json_object(members: Seq<Seq<u8>>) -> Seq<u8> {
    seq![0x7Bu8] + comma_separated(members) + seq![0x7Du8]
}

/// An optional string: `null`, or the JSON string.
pub open spec fn json_optional_string(s: Option<Seq<char>>) -> Seq<u8> {
    match s {
        Some(v) => json_string(v),
        None => seq![0x6Eu8, 0x75u8, 0x6Cu8, 0x6Cu8],
    }
}

/// An attachment as the canonical content lists it.
pub open spec fn json_attachment(a: AttachmentModel) -> Seq<u8> {
    json_object(seq![json_member("path"@, json_string(a.path)), json_member("sha256"@, json_string(a.sha256))])
}

/// The canonical content of a manifest: the compact JSON object, members in this order, of
/// schema, channel, context, recipients (to, cc, bcc), subject, body file, hash of the
/// outbound body, and attachments (each with its path and recorded hash). The allowed
/// placeholders and the approval are not part of it.
pub open spec fn canonical_content(m: ManifestModel, body_sha256: Seq<char>) -> Seq<u8> {
    json_object(
        seq![
            json_member("schema"@, encode_utf8(decimal(m.schema as nat))),
            json_member("channel"@, json_string(m.channel.name())),
            json_member("context"@, json_string(m.context)),
            json_member("to"@, json_string_array(m.to)),
            json_member("cc"@, json_string_array(m.cc)),
            json_member("bcc"@, json_string_array(m.bcc)),
            json_member("subject"@, json_optional_string(m.subject)),
            json_member("body_file"@, json_string(m.body_file)),
            json_member("body_sha256"@, json_string(body_sha256)),
            json_member("attachments"@, json_array(m.attachments.map_values(|a: AttachmentModel| json_attachment(a)))),
        ],
    )
}

fn push_bytes(out: &mut Vec<u8>, bytes: &[u8])
    ensures
        final(out)@ == old(out)@ + bytes@,
{
    let mut i: usize = 0;
    while i < bytes.len()
        invariant
            i <= bytes@.len(),
            out@ == old(out)@ + bytes@.take(i as int),
        decreases bytes@.len() - i,
    {
        out.push(bytes[i]);
        assert(bytes@.take(i + 1) =~= bytes@.take(i as int).push(bytes@[i as int]));
        i = i + 1;
    }
    assert(bytes@.take(i as int) =~= bytes@);
}

/// Appends an object member whose value is already encoded.
fn push_member(out: &mut Vec<u8>, key: &str, value: &[u8])
    ensures
        final(out)@ == old(out)@ + json_member(key@, value@),
{
    let k = json_string_bytes(key);
    push_bytes(out, k.as_slice());
    out.push(0x3Au8);
    push_bytes(out, value);
    assert(final(out)@ =~= old(out)@ + json_member(key@, value@));
}

/// Appends a comma and the next member to an object under construction.
fn push_next_member(out: &mut Vec<u8>, Ghost(ms): Ghost<Seq<Seq<u8>>>, key: &str, value: &[u8])
    requires
        ms.len() > 0,
        old(out)@ == seq![0x7Bu8] + comma_separated(ms),
    ensures
        final(out)@ == seq![0x7Bu8] + comma_separated(ms.push(json_member(key@, value@))),
{
    out.push(0x2Cu8);
    push_member(out, key, value);
    proof {
        lemma_comma_push(ms, json_member(key@, value@));
    }
    assert(final(out)@ =~= seq![0x7Bu8] + comma_separated(ms.push(json_member(key@, value@))));
}

/// The JSON array of the given strings.
fn string_array_bytes(items: &Vec<String>) -> (res: Vec<u8>)
    ensures
        res@ == json_string_array(items.deep_view()),
{
    reveal(comma_separated);
    let ghost all = items.deep_view().map_values(|s: Seq<char>| json_string(s));
    let mut out: Vec<u8> = Vec::new();
    out.push(0x5Bu8);
    let mut i: usize = 0;
    while i < items.len()
        invariant
            i <= items@.len(),
            all == items.deep_view().map_values(|s: Seq<char>| json_string(s)),
            out@ == seq![0x5Bu8] + comma_separated(all.take(i as int)),
        decreases items@.len() - i,
    {
        if i > 0 {
            out.push(0x2Cu8);
        }
        let e = json_string_bytes(items[i].as_str());
        push_bytes(&mut out, e.as_slice());
        assert(all.take(i + 1).drop_last() =~= all.take(i as int));
        assert(all[i as int] == e@);
        proof {
            if i == 0 {
                lemma_comma_single(all[0]);
                assert(all.take(0) =~= Seq::<Seq<u8>>::empty());
                assert(all.take(1) =~= seq![all[0]]);
            } else {
                lemma_comma_push(all.take(i as int), all[i as int]);
                assert(all.take(i + 1) =~= all.take(i as int).push(all[i as int]));
            }
        }
        assert(out@ =~= seq![0x5Bu8] + comma_separated(all.take(i + 1)));
        i = i + 1;
    }
    out.push(0x5Du8);
    assert(all.take(i as int) =~= all);
    out
}

fn attachment_bytes(a: &Attachment) -> (res: Vec<u8>)
    ensures
        res@ == json_attachment(a.deep_view()),
{
    reveal(comma_separated);
    let mut out: Vec<u8> = Vec::new();
    out.push(0x7Bu8);
    let p = json_string_bytes(a.path.as_str());
    push_member(&mut out, "path", p.as_slice());
    out.push(0x2Cu8);
    let h = json_string_bytes(a.sha256.as_str());
    push_member(&mut out, "sha256", h.as_slice());
    out.push(0x7Du8);
    let ghost members = seq![json_member("path"@, p@), json_member("sha256"@, h@)];
    assert(members.drop_last() =~= seq![json_member("path"@, p@)]);
    assert(comma_separated(seq![json_member("path"@, p@)]) == json_member("path"@, p@));
    assert(comma_separated(members) == json_member("path"@, p@) + seq![0x2Cu8] + json_member(
        "sha256"@,
        h@,
    ));
    assert(out@ =~= json_object(members));
    out
}

fn attachments_bytes(items: &Vec<Attachment>) -> (res: Vec<u8>)
    ensures
        res@ == json_array(items.deep_view().map_values(|a: AttachmentModel| json_attachment(a))),
{
    reveal(comma_separated);
    let ghost all = items.deep_view().map_values(|a: AttachmentModel| json_attachment(a));
    let mut out: Vec<u8> = Vec::new();
    out.push(0x5Bu8);
    let mut i: usize = 0;
    while i < items.len()
        invariant
            i <= items@.len(),
            all == items.deep_view().map_values(|a: AttachmentModel| json_attachment(a)),
            out@ == seq![0x5Bu8] + comma_separated(all.take(i as int)),
        decreases items@.len() - i,
    {
        if i > 0 {
            out.push(0x2Cu8);
        }
        let e = attachment_bytes(&items[i]);
        push_bytes(&mut out, e.as_slice());
        assert(all.take(i + 1).drop_last() =~= all.take(i as int));
        assert(all[i as int] == e@);
        proof {
            if i == 0 {
                lemma_comma_single(all[0]);
                assert(all.take(0) =~= Seq::<Seq<u8>>::empty());
                assert(all.take(1) =~= seq![all[0]]);
            } else {
                lemma_comma_push(all.take(i as int), all[i as int]);
                assert(all.take(i + 1) =~= all.take(i as int).push(all[i as int]));
            }
        }
        assert(out@ =~= seq![0x5Bu8] + comma_separated(all.take(i + 1)));
        i = i + 1;
    }
    out.push(0x5Du8);
    assert(all.take(i as int) =~= all);
    out
}

/// The canonical content of `m` with the given hash of its outbound body.
pub fn canonical_content_bytes(m: &Manifest, body_sha256: &str) -> (res: Vec<u8>)
    ensures
        res@ == canonical_content(m.deep_view(), body_sha256@),
{
    let schema = decimal_string(m.schema as u64);
    let v0 = schema.as_str().as_bytes();
    let v1 = json_string_bytes(m.channel.as_str());
    let v2 = json_string_bytes(m.context.as_str());
    let v3 = string_array_bytes(&m.to);
    let v4 = string_array_bytes(&m.cc);
    let v5 = string_array_bytes(&m.bcc);
    let v6 = match &m.subject {
        Some(s) => json_string_bytes(s.as_str()),
        None => {
            let mut n: Vec<u8> = Vec::new();
            n.push(0x6Eu8);
            n.push(0x75u8);
            n.push(0x6Cu8);
            n.push(0x6Cu8);
            n
        },
    };
    assert(v6@ =~= json_optional_string(m.subject.deep_view()));
    let v7 = json_string_bytes(m.body_file.as_str());
    let v8 = json_string_bytes(body_sha256);
    let v9 = attachments_bytes(&m.attachments);
    let ghost md = m.deep_view();
    let mut out: Vec<u8> = Vec::new();
    out.push(0x7Bu8);
    push_member(&mut out, "schema", v0);
    let ghost mut ms: Seq<Seq<u8>> = seq![json_member("schema"@, encode_utf8(decimal(md.schema as nat)))];
    proof {
        lemma_comma_single(ms[0]);
        assert(ms =~= seq![ms[0]]);
    }
    assert(out@ =~= seq![0x7Bu8] + comma_separated(ms));
    push_next_member(&mut out, Ghost(ms), "channel", v1.as_slice());
    proof { ms = ms.push(json_member("channel"@, json_string(md.channel.name()))); }
    push_next_member(&mut out, Ghost(ms), "context", v2.as_slice());
    proof { ms = ms.push(json_member("context"@, json_string(md.context))); }
    push_next_member(&mut out, Ghost(ms), "to", v3.as_slice());
    proof { ms = ms.push(json_member("to"@, json_string_array(md.to))); }
    push_next_member(&mut out, Ghost(ms), "cc", v4.as_slice());
    proof { ms = ms.push(json_member("cc"@, json_string_array(md.cc))); }
    push_next_member(&mut out, Ghost(ms), "bcc", v5.as_slice());
    proof { ms = ms.push(json_member("bcc"@, json_string_array(md.bcc))); }
    push_next_member(&mut out, Ghost(ms), "subject", v6.as_slice());
    proof { ms = ms.push(json_member("subject"@, json_optional_string(md.subject))); }
    push_next_member(&mut out, Ghost(ms), "body_file", v7.as_slice());
    proof { ms = ms.push(json_member("body_file"@, json_string(md.body_file))); }
    push_next_member(&mut out, Ghost(ms), "body_sha256", v8.as_slice());
    proof { ms = ms.push(json_member("body_sha256"@, json_string(body_sha256@))); }
    push_next_member(&mut out, Ghost(ms), "attachments", v9.as_slice());
    proof { ms = ms.push(json_member("attachments"@, json_array(md.attachments.map_values(|a: AttachmentModel| json_attachment(a))))); }
    out.push(0x7Du8);
    assert(ms =~= seq![
        json_member("schema"@, encode_utf8(decimal(md.schema as nat))),
        json_member("channel"@, json_string(md.channel.name())),
        json_member("context"@, json_string(md.context)),
        json_member("to"@, json_string_array(md.to)),
        json_member("cc"@, json_string_array(md.cc)),
        json_member("bcc"@, json_string_array(md.bcc)),
        json_member("subject"@, json_optional_string(md.subject)),
        json_member("body_file"@, json_string(md.body_file)),
        json_member("body_sha256"@, json_string(body_sha256@)),
        json_member("attachments"@, json_array(md.attachments.map_values(|a: AttachmentModel| json_attachment(a)))),
    ]);
    assert(out@ =~= json_object(ms));
    out
}

} // verus!
