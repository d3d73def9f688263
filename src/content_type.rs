//! The closed set of image content types, parsed from a file extension or a
//! MIME string, stored as an integer code and rendered back as MIME.
use vstd::prelude::*;
use vstd::string::*;

use crate::text::{has_prefix, starts_with, str_eq};

verus! {

/// Canonical image content type. `UNKNOWN` is a valid value, not an error.
#[derive(Clone, Copy, Debug, PartialEq, Eq, Structural)]
pub enum ContentType {
    UNKNOWN,
    JPEG,
    PNG,
    GIF,
    WEBP,
    BMP,
}

/// The MIME prefix that a content-type hint may carry.
pub open spec fn image_prefix() -> Seq<char> {
    seq!['i', 'm', 'a', 'g', 'e', '/']
}

/// A type hint without its `image/` prefix, if it has one.
pub open spec fn strip_image_prefix(s: Seq<char>) -> Seq<char> {
    if has_prefix(s, image_prefix()) {
        s.skip(6)
    } else {
        s
    }
}

/// The content type named by an extension (`jpg`) or a MIME string (`image/jpeg`).
pub open spec fn content_type_of(s: Seq<char>) -> ContentType {
    let t = strip_image_prefix(s);
    if t == seq!['j', 'p', 'g'] || t == seq!['j', 'p', 'e', 'g'] {
        ContentType::JPEG
    } else if t == seq!['p', 'n', 'g'] {
        ContentType::PNG
    } else if t == seq!['g', 'i', 'f'] {
        ContentType::GIF
    } else if t == seq!['w', 'e', 'b', 'p'] {
        ContentType::WEBP
    } else if t == seq!['b', 'm', 'p'] {
        ContentType::BMP
    } else {
        ContentType::UNKNOWN
    }
}

/// The content type stored under an integer code; unknown codes map to `UNKNOWN`.
pub open spec fn content_type_of_code(c: i32) -> ContentType {
    if c == 1 {
        ContentType::JPEG
    } else if c == 2 {
        ContentType::PNG
    } else if c == 3 {
        ContentType::GIF
    } else if c == 4 {
        ContentType::WEBP
    } else if c == 5 {
        ContentType::BMP
    } else {
        ContentType::UNKNOWN
    }
}

impl ContentType {
    /// Integer code under which the content type is stored.
    pub open spec fn spec_code(self) -> i32 {
        match self {
            ContentType::UNKNOWN => 0,
            ContentType::JPEG => 1,
            ContentType::PNG => 2,
            ContentType::GIF => 3,
            ContentType::WEBP => 4,
            ContentType::BMP => 5,
        }
    }

    /// The MIME string served for this content type.
    pub open spec fn mime(self) -> Seq<char> {
        match self {
            ContentType::JPEG => seq!['i', 'm', 'a', 'g', 'e', '/', 'j', 'p', 'e', 'g'],
            ContentType::PNG => seq!['i', 'm', 'a', 'g', 'e', '/', 'p', 'n', 'g'],
            ContentType::GIF => seq!['i', 'm', 'a', 'g', 'e', '/', 'g', 'i', 'f'],
            ContentType::WEBP => seq!['i', 'm', 'a', 'g', 'e', '/', 'w', 'e', 'b', 'p'],
            ContentType::BMP => seq!['i', 'm', 'a', 'g', 'e', '/', 'b', 'm', 'p'],
            ContentType::UNKNOWN => seq![
                'a', 'p', 'p', 'l', 'i', 'c', 'a', 't', 'i', 'o', 'n', '/',
                'o', 'c', 't', 'e', 't', '-', 's', 't', 'r', 'e', 'a', 'm',
            ],
        }
    }

    pub fn code(&self) -> (r: i32)
        ensures
            r == self.spec_code(),
    {
        match self {
            ContentType::UNKNOWN => 0,
            ContentType::JPEG => 1,
            ContentType::PNG => 2,
            ContentType::GIF => 3,
            ContentType::WEBP => 4,
            ContentType::BMP => 5,
        }
    }

    /// Parses an extension or a MIME string, with or without the `image/` prefix.
    pub fn from_str(content_type: &str) -> (r: ContentType)
        ensures
            r == content_type_of(content_type@),
    {
        proof {
            reveal_strlit("image/");
            reveal_strlit("jpg");
            reveal_strlit("jpeg");
            reveal_strlit("png");
            reveal_strlit("gif");
            reveal_strlit("webp");
            reveal_strlit("bmp");
        }
        assert("image/"@ =~= image_prefix());
        assert("jpg"@ =~= seq!['j', 'p', 'g']);
        assert("jpeg"@ =~= seq!['j', 'p', 'e', 'g']);
        assert("png"@ =~= seq!['p', 'n', 'g']);
        assert("gif"@ =~= seq!['g', 'i', 'f']);
        assert("webp"@ =~= seq!['w', 'e', 'b', 'p']);
        assert("bmp"@ =~= seq!['b', 'm', 'p']);
        let n = content_type.unicode_len();
        let rest: &str = if starts_with(content_type, "image/") {
            content_type.substring_char(6, n)
        } else {
            content_type
        };
        assert(rest@ =~= strip_image_prefix(content_type@));
        if str_eq(rest, "jpg") || str_eq(rest, "jpeg") {
            ContentType::JPEG
        } else if str_eq(rest, "png") {
            ContentType::PNG
        } else if str_eq(rest, "gif") {
            ContentType::GIF
        } else if str_eq(rest, "webp") {
            ContentType::WEBP
        } else if str_eq(rest, "bmp") {
            ContentType::BMP
        } else {
            ContentType::UNKNOWN
        }
    }

    /// The content type stored under `content_type`; an unknown code gives `UNKNOWN`.
    pub fn from_int(content_type: i32) -> (r: ContentType)
        ensures
            r == content_type_of_code(content_type),
            r.spec_code() == content_type || r == ContentType::UNKNOWN,
    {
        if content_type == 1 {
            ContentType::JPEG
        } else if content_type == 2 {
            ContentType::PNG
        } else if content_type == 3 {
            ContentType::GIF
        } else if content_type == 4 {
            ContentType::WEBP
        } else if content_type == 5 {
            ContentType::BMP
        } else {
            ContentType::UNKNOWN
        }
    }

    /// The MIME string of this content type.
    pub fn to_string(&self) -> (r: String)
        ensures
            r@ == self.mime(),
    {
        let s: &str = match self {
            ContentType::JPEG => "image/jpeg",
            ContentType::PNG => "image/png",
            ContentType::GIF => "image/gif",
            ContentType::WEBP => "image/webp",
            ContentType::BMP => "image/bmp",
            ContentType::UNKNOWN => "application/octet-stream",
        };
        proof {
            reveal_strlit("image/jpeg");
            reveal_strlit("image/png");
            reveal_strlit("image/gif");
            reveal_strlit("image/webp");
            reveal_strlit("image/bmp");
            reveal_strlit("application/octet-stream");
        }
        assert(s@ =~= self.mime());
        String::from_str(s)
    }
}

/// Rendering a content type and parsing it back gives the same content type.
pub proof fn lemma_mime_round_trip(t: ContentType)
    ensures
        content_type_of(t.mime()) == t,
{
    let m = t.mime();
    assert(has_prefix(m, image_prefix()) == (t != ContentType::UNKNOWN)) by {
        if t == ContentType::UNKNOWN {
            assert(m.subrange(0, 6)[0] != image_prefix()[0]);
        } else {
            assert(m.subrange(0, 6) =~= image_prefix());
        }
    }
    if t != ContentType::UNKNOWN {
        assert(strip_image_prefix(m) =~= m.skip(6));
    }
    match t {
        ContentType::JPEG => assert(m.skip(6) =~= seq!['j', 'p', 'e', 'g']),
        ContentType::PNG => assert(m.skip(6) =~= seq!['p', 'n', 'g']),
        ContentType::GIF => assert(m.skip(6) =~= seq!['g', 'i', 'f']),
        ContentType::WEBP => assert(m.skip(6) =~= seq!['w', 'e', 'b', 'p']),
        ContentType::BMP => assert(m.skip(6) =~= seq!['b', 'm', 'p']),
        ContentType::UNKNOWN => {
            assert(m.len() == 24);
        },
    }
}

/// Storing a content type as its code and reading it back gives the same content type.
pub proof fn lemma_code_round_trip(t: ContentType)
    ensures
        content_type_of_code(t.spec_code()) == t,
{
}

} // verus!
