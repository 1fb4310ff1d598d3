//! Images that the front end shows: what kind of file the bytes are, which
//! icon of an icon family is taken, and the data URL of the result.

use vstd::prelude::*;

verus! {

/// The bytes of an image with the MIME type they are served under.
#[derive(Debug, Clone, PartialEq, Eq)]
pub struct ImageData {
    pub content: Vec<u8>,
    pub mime: String,
}

/// The four bytes that an icon family begins with: `icns`.
pub open spec fn icns_magic() -> Seq<u8> {
    seq![0x69u8, 0x63u8, 0x6eu8, 0x73u8]
}

/// Whether `buf` begins as an icon family does.
pub fn icns_matcher(buf: &[u8]) -> (matches: bool)
    ensures
        matches == (buf@.len() >= 4 && buf@.subrange(0, 4) == icns_magic()),
{
    if buf.len() >= 4 && buf[0] == 0x69 && buf[1] == 0x63 && buf[2] == 0x6e && buf[3] == 0x73 {
        assert(buf@.subrange(0, 4) =~= icns_magic());
        true
    } else {
        if buf.len() >= 4 {
            assert(buf@.subrange(0, 4)[0] == buf@[0]);
            assert(buf@.subrange(0, 4)[1] == buf@[1]);
            assert(buf@.subrange(0, 4)[2] == buf@[2]);
            assert(buf@.subrange(0, 4)[3] == buf@[3]);
        }
        false
    }
}

/// What the selection reads of one icon of a family.
#[derive(Debug, Clone, Copy, PartialEq, Eq, Structural)]
pub struct IconEntry {
    /// The width of the icon in pixels.
    pub pixel_width: u32,
    /// Whether the icon is stored as PNG or JPEG 2000.
    pub png: bool,
}

/// The width below which an icon is taken.
pub const ICON_WIDTH_LIMIT: u32 = 512;

/// Whether the icon may be taken: it is stored as PNG and narrower than
/// the limit.
pub open spec fn eligible(entry: IconEntry) -> bool {
    entry.png && entry.pixel_width < ICON_WIDTH_LIMIT
}

/// Whether `choice` is the icon to take from `entries`: the widest of the
/// eligible ones, and of several that are equally wide the last.
pub open spec fn is_choice(entries: Seq<IconEntry>, choice: Option<usize>) -> bool {
    match choice {
        Some(at) => {
            &&& at < entries.len()
            &&& eligible(entries[at as int])
            &&& forall|j: int|
                0 <= j < entries.len() && eligible(#[trigger] entries[j]) ==> entries[j].pixel_width
                    <= entries[at as int].pixel_width
            &&& forall|j: int|
                at < j < entries.len() && eligible(#[trigger] entries[j]) ==> entries[j].pixel_width
                    < entries[at as int].pixel_width
        },
        None => forall|j: int| 0 <= j < entries.len() ==> !eligible(#[trigger] entries[j]),
    }
}

/// Picks the icon to take from a family.
pub fn choose_icon(entries: &Vec<IconEntry>) -> (choice: Option<usize>)
    ensures
        is_choice(entries@, choice),
{
    let mut choice: Option<usize> = None;
    let mut i: usize = 0;
    while i < entries.len()
        invariant
            0 <= i <= entries@.len(),
            is_choice(entries@.subrange(0, i as int), choice),
        decreases entries@.len() - i,
    {
        let entry = entries[i];
        let ghost before = entries@.subrange(0, i as int);
        let ghost after = entries@.subrange(0, i + 1);
        let ghost previous = choice;
        proof {
            assert forall|j: int| 0 <= j < i implies after[j] == before[j] by {}
            assert(after[i as int] == entry);
        }
        if entry.png && entry.pixel_width < ICON_WIDTH_LIMIT {
            match choice {
                Some(at) => {
                    if entries[at].pixel_width <= entry.pixel_width {
                        choice = Some(i);
                    }
                },
                None => {
                    choice = Some(i);
                },
            }
        }
        proof {
            match previous {
                Some(at) => {
                    assert(before[at as int] == entries@[at as int]);
                    assert forall|j: int|
                        0 <= j < after.len() && eligible(#[trigger] after[j]) implies after[j].pixel_width
                            <= after[choice->Some_0 as int].pixel_width by {
                        if j < i {
                            assert(eligible(before[j]));
                        }
                    }
                    assert forall|j: int|
                        choice->Some_0 < j < after.len() && eligible(
                            #[trigger] after[j],
                        ) implies after[j].pixel_width < after[choice->Some_0 as int].pixel_width by {
                        if j < i {
                            assert(eligible(before[j]));
                        }
                    }
                },
                None => {
                    assert forall|j: int| 0 <= j < i implies !eligible(#[trigger] after[j]) by {
                        assert(!eligible(before[j]));
                    }
                },
            }
        }
        i += 1;
    }
    assert(entries@.subrange(0, entries@.len() as int) =~= entries@);
    choice
}

/// What `base64::engine::general_purpose::STANDARD_NO_PAD` encodes `bytes`
/// to.
pub uninterp spec fn base64_no_pad(bytes: Seq<u8>) -> Seq<char>;

/// Calls `Engine::encode` on `STANDARD_NO_PAD`. The contract names the
/// result; the length is bounded because the crate gives up on an input
/// whose encoding would be longer than a `usize` can say.
#[verifier::external_body]
fn encode_base64(bytes: &[u8]) -> (text: String)
    requires
        bytes@.len() <= usize::MAX / 2,
    ensures
        text@ == base64_no_pad(bytes@),
{
    base64::Engine::encode(&base64::engine::general_purpose::STANDARD_NO_PAD, bytes)
}

impl ImageData {
    /// The image of a file that is no icon family: its bytes, under the
    /// MIME type that was found for them.
    pub fn from_file(content: Vec<u8>, mime: &str) -> (image: Self)
        ensures
            image.content == content,
            image.mime@ == mime@,
    {
        ImageData { content, mime: String::from_str(mime) }
    }

    /// The image of an icon family: the data of the chosen icon, or the
    /// placeholder where it could not be decoded, as a PNG.
    pub fn from_icon(icon: Option<Vec<u8>>, placeholder: &[u8]) -> (image: Self)
        ensures
            image.content@ == (match icon {
                Some(data) => data@,
                None => placeholder@,
            }),
            image.mime@ == "image/png"@,
    {
        let content = match icon {
            Some(data) => data,
            None => vstd::slice::slice_to_vec(placeholder),
        };
        ImageData { content, mime: String::from_str("image/png") }
    }

    /// The data URL of the image.
    pub fn b64_content_string(&self) -> (url: String)
        requires
            self.content@.len() <= usize::MAX / 2,
        ensures
            url@ == "data:"@ + self.mime@ + ";base64,"@ + base64_no_pad(self.content@),
    {
        let encoded = encode_base64(self.content.as_slice());
        let mut url = String::from_str("data:");
        url.append(self.mime.as_str());
        url.append(";base64,");
        url.append(encoded.as_str());
        url
    }
}

} // verus!
