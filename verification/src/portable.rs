use vstd::prelude::*;
use vstd::string::{StringExecFns, StrSliceExecFns};
use crate::codec::Page;
use crate::text::clone_bytes;

verus! {

/// The unpadded standard base64 text of a byte sequence.
pub uninterp spec fn b64_of(bytes: Seq<u8>) -> Seq<char>;

/// Relies on base64's `STANDARD_NO_PAD` engine: the unpadded standard base64
/// encoding of the bytes, a function of the bytes alone. Three bytes become
/// four characters, the final one or two bytes two or three, so the length is
/// the byte length scaled by four thirds, rounded up.
#[verifier::external_body]
fn b64_encode(bytes: &Vec<u8>) -> (r: String)
    ensures
        r@ == b64_of(bytes@),
        r@.len() == (bytes@.len() * 4 + 2) / 3,
{
    base64::Engine::encode(&base64::engine::general_purpose::STANDARD_NO_PAD, bytes.as_slice())
}

/// The PNG encoding of a pixel buffer with the given dimensions, where the
/// dimensions fit a pixmap holding exactly that buffer.
pub uninterp spec fn png_of(w: u32, h: u32, data: Seq<u8>) -> Option<Seq<u8>>;

/// Relies on tiny_skia's `Pixmap::new` and `Pixmap::encode_png`: the PNG
/// encoding of a premultiplied RGBA pixel buffer, a function of the
/// dimensions and the bytes alone. Encoding fails on dimensions that fit no
/// pixmap over this buffer (zero, or not matching its length).
#[verifier::external_body]
fn encode_png(w: u32, h: u32, data: Vec<u8>) -> (r: Option<Vec<u8>>)
    ensures
        r matches Some(b) ==> png_of(w, h, data@) == Some(b@),
        r is None ==> png_of(w, h, data@) is None,
{
    let mut pixmap = match tiny_skia::Pixmap::new(w, h) {
        Some(p) => p,
        None => return None,
    };
    if pixmap.data().len() != data.len() {
        return None;
    }
    pixmap.data_mut().copy_from_slice(data.as_slice());
    pixmap.encode_png().ok()
}

/// The PNG encoding of one page.
pub open spec fn page_png(p: Page) -> Option<Seq<u8>> {
    png_of(p.width, p.height, p.data@)
}

/// The bytes an encoding outcome carries.
pub open spec fn some_bytes(o: Option<Seq<u8>>) -> Seq<u8> {
    match o {
        Some(b) => b,
        None => Seq::<u8>::empty(),
    }
}

/// The data URI of one encoded page image.
pub open spec fn data_uri_spec(png: Seq<u8>) -> Seq<char> {
    "data:image/png;base64,"@ + b64_of(png)
}

/// The JSON text of a list of strings, each quoted verbatim. It is for
/// strings that need no escaping, as data URIs are: base64 text and URI
/// punctuation hold no quote and no backslash.
pub open spec fn json_strings_spec(items: Seq<Seq<char>>) -> Seq<char>
    decreases items.len(),
{
    if items.len() == 0 {
        Seq::<char>::empty()
    } else if items.len() == 1 {
        "\""@ + items[0] + "\""@
    } else {
        json_strings_spec(items.drop_last()) + ","@ + "\""@ + items.last() + "\""@
    }
}

/// A JSON array of the quoted strings.
pub open spec fn json_array_spec(items: Seq<Seq<char>>) -> Seq<char> {
    "["@ + json_strings_spec(items) + "]"@
}

/// The text frame of one broadcast in the portable wire format: a JSON array
/// of data URIs, one per page, in page order.
pub open spec fn portable_frame_spec(pages: Seq<Page>) -> Seq<char> {
    json_array_spec(pages.map_values(|p: Page| data_uri_spec(some_bytes(page_png(p)))))
}

/// Encode one broadcast in the portable wire format: each page becomes a PNG
/// data URI, and the frame is the JSON array of all of them in page order.
/// Succeeds exactly when every page's PNG encoding succeeds.
pub fn encode_pages_portable(pages: &Vec<Page>) -> (r: Option<String>)
    ensures
        r is Some <==> (forall|i: int|
            0 <= i < pages@.len() ==> (#[trigger] page_png(pages@[i])) is Some),
        r matches Some(s) ==> s@ == portable_frame_spec(pages@),
{
    let ghost uris = pages@.map_values(|p: Page| data_uri_spec(some_bytes(page_png(p))));
    let n = pages.len();
    let mut body = String::new();
    let mut i: usize = 0;
    proof {
        assert(uris.take(0).len() == 0);
    }
    while i < n
        invariant
            i <= n,
            n == pages@.len(),
            uris == pages@.map_values(|p: Page| data_uri_spec(some_bytes(page_png(p)))),
            forall|j: int| 0 <= j < i ==> (#[trigger] page_png(pages@[j])) is Some,
            body@ == json_strings_spec(uris.take(i as int)),
        decreases n - i,
    {
        let p = &pages[i];
        let png = match encode_png(p.width, p.height, clone_bytes(&p.data)) {
            Some(b) => b,
            None => {
                proof {
                    assert(page_png(pages@[i as int]) is None);
                }
                return None;
            },
        };
        let b64 = b64_encode(&png);
        if i > 0 {
            body.append(",");
        }
        body.append("\"");
        body.append("data:image/png;base64,");
        body.append(b64.as_str());
        body.append("\"");
        proof {
            assert(uris.take(i + 1 as int).drop_last() =~= uris.take(i as int));
            assert(uris.take(i + 1 as int).last() == uris[i as int]);
            assert(uris[i as int] == data_uri_spec(some_bytes(page_png(pages@[i as int]))));
            assert(png@ == some_bytes(page_png(pages@[i as int])));
            assert(body@ =~= json_strings_spec(uris.take(i + 1 as int)));
        }
        i += 1;
    }
    let mut out = String::from_str("[");
    out.append(body.as_str());
    out.append("]");
    proof {
        assert(uris.take(n as int) =~= uris);
        assert(out@ =~= portable_frame_spec(pages@));
    }
    Some(out)
}

} // verus!
