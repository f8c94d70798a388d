//! Vision requests: how an image attachment is prepared for a vision model
//! (animated GIFs reduced to a PNG frame, everything base64-encoded into a
//! data URL) and the multimodal message that carries it.
use vstd::prelude::*;
use crate::commands::lm::{ImageUrl, MessageContent, MultimodalChatMessage};
use crate::context::{lowercase, to_lowercase};
use crate::text::{contains_pat, contains_str, from_chars, push_str, to_chars};

verus! {

/// What `mime_guess` guesses for a file name: the first MIME type registered
/// for its extension, or `image/jpeg` when there is none.
pub uninterp spec fn guessed_mime(filename: Seq<char>) -> Seq<char>;

/// `mime_guess::from_path(..).first_or(IMAGE_JPEG)`, displayed: the contract
/// names the result; which types the crate's table holds is not stated.
#[verifier::external_body]
fn guess_mime(filename: &str) -> (r: String)
    ensures
        r@ == guessed_mime(filename@),
{
    mime_guess::from_path(filename).first_or(mime_guess::mime::IMAGE_JPEG).to_string()
}

/// The character of the standard base64 alphabet (`A`-`Z`, `a`-`z`,
/// `0`-`9`, `+`, `/`) for a six-bit value.
pub open spec fn base64_digit(v: int) -> char {
    if v < 26 {
        (65 + v) as char
    } else if v < 52 {
        (97 + v - 26) as char
    } else if v < 62 {
        (48 + v - 52) as char
    } else if v == 62 {
        '+'
    } else {
        '/'
    }
}

/// The standard base64 encoding of some bytes, with `=` padding: every three
/// bytes become four characters; a last one or two bytes become two or three
/// characters, padded with `=` to four.
pub open spec fn base64_standard(bytes: Seq<u8>) -> Seq<char>
    decreases bytes.len(),
{
    if bytes.len() == 0 {
        Seq::empty()
    } else if bytes.len() == 1 {
        let a = bytes[0] as int;
        seq![base64_digit(a / 4), base64_digit((a % 4) * 16), '=', '=']
    } else if bytes.len() == 2 {
        let a = bytes[0] as int;
        let b = bytes[1] as int;
        seq![base64_digit(a / 4), base64_digit((a % 4) * 16 + b / 16), base64_digit((b % 16) * 4), '=']
    } else {
        let a = bytes[0] as int;
        let b = bytes[1] as int;
        let c = bytes[2] as int;
        seq![
            base64_digit(a / 4),
            base64_digit((a % 4) * 16 + b / 16),
            base64_digit((b % 16) * 4 + c / 64),
            base64_digit(c % 64),
        ] + base64_standard(bytes.skip(3))
    }
}

/// `base64::engine::general_purpose::STANDARD.encode`: the standard alphabet
/// with padding, as `base64_standard` states it.
#[verifier::external_body]
fn encode_base64(bytes: &Vec<u8>) -> (r: String)
    ensures
        r@ == base64_standard(bytes@),
{
    base64::Engine::encode(&base64::engine::general_purpose::STANDARD, bytes.as_slice())
}

/// The first frame of a GIF, re-encoded as PNG, when the `image` crate can
/// decode the bytes as a GIF and encode the frame.
pub uninterp spec fn gif_png(bytes: Seq<u8>) -> Option<Seq<u8>>;

/// What decoding a GIF gave.
pub enum GifDecode {
    /// The first frame as PNG bytes.
    Png(Vec<u8>),
    /// The `image` crate does not support this GIF.
    Unsupported,
    /// Decoding or encoding failed otherwise; the error's text.
    Failed(String),
}

/// `image::load_from_memory_with_format(bytes, ImageFormat::Gif)` followed by
/// `DynamicImage::write_to(.., ImageFormat::Png)`: the contract names the PNG
/// that comes out; which GIFs are refused, and with which error, is not
/// stated.
#[verifier::external_body]
fn decode_gif_to_png(bytes: &Vec<u8>) -> (r: GifDecode)
    ensures
        match r {
            GifDecode::Png(p) => gif_png(bytes@) == Some(p@),
            _ => gif_png(bytes@) is None,
        },
{
    match image::load_from_memory_with_format(bytes.as_slice(), image::ImageFormat::Gif) {
        Ok(img) => {
            let mut png: Vec<u8> = Vec::new();
            match img.write_to(&mut std::io::Cursor::new(&mut png), image::ImageFormat::Png) {
                Ok(()) => GifDecode::Png(png),
                Err(e) => GifDecode::Failed(e.to_string()),
            }
        },
        Err(image::ImageError::Unsupported(_)) => GifDecode::Unsupported,
        Err(e) => GifDecode::Failed(e.to_string()),
    }
}

/// The content type of an attachment: the one Discord declared, else the
/// one guessed from its file name.
pub fn attachment_content_type(declared: Option<String>, filename: &str) -> (r: String)
    ensures
        r@ == match declared {
            Some(d) => d@,
            None => guessed_mime(filename@),
        },
{
    match declared {
        Some(d) => d,
        None => guess_mime(filename),
    }
}

/// The file name ends with `.gif`, ignoring case.
pub open spec fn gif_name(filename: Seq<char>) -> bool {
    let l = lowercase(filename);
    l.len() >= 4 && l.subrange(l.len() - 4, l.len() as int) == ".gif"@
}

/// Whether an attachment is a GIF: by its content type or its file name.
pub fn is_gif_attachment(content_type: &str, filename: &str) -> (b: bool)
    ensures
        b == (content_type@ == "image/gif"@ || gif_name(filename@)),
{
    let ct = to_chars(content_type);
    let gif = to_chars("image/gif");
    if crate::cleaning::eq_chars(ct.as_slice(), gif.as_slice()) {
        return true;
    }
    let lower = to_lowercase(filename);
    let l = to_chars(lower.as_str());
    proof {
        reveal_strlit(".gif");
    }
    if l.len() < 4 {
        return false;
    }
    let n = l.len();
    let r = l[n - 4] == '.' && l[n - 3] == 'g' && l[n - 2] == 'i' && l[n - 1] == 'f';
    proof {
        let sub = l@.subrange(n - 4, n as int);
        assert(".gif"@.len() == 4);
        if r {
            assert(sub =~= ".gif"@);
        } else if sub == ".gif"@ {
            assert(sub[0] == '.' && sub[1] == 'g' && sub[2] == 'i' && sub[3] == 'f');
        }
    }
    r
}

/// What follows an attempt to decode a GIF.
pub enum GifStep {
    /// Use these bytes with this content type.
    Use(Vec<u8>, String),
    /// The `image` crate does not support the GIF: try to extract its first
    /// frame another way.
    TryFirstFrame,
}

/// Decodes a GIF for a vision model: the first frame as PNG when the
/// `image` crate manages; a request to try another way when it does not
/// support the GIF; otherwise an error.
pub fn gif_step(gif_bytes: &Vec<u8>) -> (r: Result<GifStep, String>)
    ensures
        match r {
            Ok(GifStep::Use(b, t)) => gif_png(gif_bytes@) == Some(b@) && t@ == "image/png"@,
            Ok(GifStep::TryFirstFrame) => gif_png(gif_bytes@) is None,
            Err(e) => gif_png(gif_bytes@) is None && e@.len() >= 22 && e@.subrange(0, 22)
                == "GIF processing failed: "@.subrange(0, 22),
        },
{
    match decode_gif_to_png(gif_bytes) {
        GifDecode::Png(p) => Ok(GifStep::Use(p, String::from_str("image/png"))),
        GifDecode::Unsupported => Ok(GifStep::TryFirstFrame),
        GifDecode::Failed(e) => {
            let mut out = to_chars("GIF processing failed: ");
            proof {
                reveal_strlit("GIF processing failed: ");
            }
            let ghost head = out@;
            push_str(&mut out, e.as_str());
            assert(out@.subrange(0, 22) =~= head.subrange(0, 22));
            Err(from_chars(out.as_slice()))
        },
    }
}

/// The image as the vision request carries it: base64 text and content type.
pub fn vision_payload(bytes: &Vec<u8>, content_type: String) -> (r: (String, String))
    ensures
        r.0@ == base64_standard(bytes@),
        r.1@ == content_type@,
{
    (encode_base64(bytes), content_type)
}

/// The system instruction of a vision request.
pub open spec fn vision_instruction() -> Seq<char> {
    "You are a vision-capable AI assistant. You can analyze images including static images and frames from animated GIFs."@
}

/// The text of a message part, when it is one.
pub open spec fn text_part(c: MessageContent) -> Option<(Seq<char>, Seq<char>)> {
    match c {
        MessageContent::Text { content_type, text } => Some((content_type@, text@)),
        _ => None,
    }
}

/// The image of a message part, when it is one.
pub open spec fn image_part(c: MessageContent) -> Option<(Seq<char>, Seq<char>)> {
    match c {
        MessageContent::Image { content_type, image_url } => Some((content_type@, image_url.url@)),
        _ => None,
    }
}

/// Builds the two messages of a vision request: the system instruction, and
/// the user's prompt with the image as a data URL.
pub fn create_vision_message(prompt: &str, base64_image: &str, content_type: &str) -> (r: Vec<
    MultimodalChatMessage,
>)
    ensures
        r@.len() == 2,
        r@[0].role@ == "system"@,
        r@[0].content@.len() == 1,
        text_part(r@[0].content@[0]) == Some(("text"@, vision_instruction())),
        r@[1].role@ == "user"@,
        r@[1].content@.len() == 2,
        text_part(r@[1].content@[0]) == Some(("text"@, prompt@)),
        image_part(r@[1].content@[1]) == Some(
            ("image_url"@, "data:"@ + content_type@ + ";base64,"@ + base64_image@),
        ),
{
    let mut url = to_chars("data:");
    push_str(&mut url, content_type);
    push_str(&mut url, ";base64,");
    push_str(&mut url, base64_image);
    let system = MultimodalChatMessage {
        role: String::from_str("system"),
        content: vec![
            MessageContent::Text {
                content_type: String::from_str("text"),
                text: String::from_str(
                    "You are a vision-capable AI assistant. You can analyze images including static images and frames from animated GIFs.",
                ),
            },
        ],
    };
    let user = MultimodalChatMessage {
        role: String::from_str("user"),
        content: vec![
            MessageContent::Text {
                content_type: String::from_str("text"),
                text: String::from_str(prompt),
            },
            MessageContent::Image {
                content_type: String::from_str("image_url"),
                image_url: ImageUrl { url: from_chars(url.as_slice()) },
            },
        ],
    };
    vec![system, user]
}

/// The first message of a vision request, before the answer streams in.
pub fn initial_vision_text(is_gif: bool) -> (m: String)
    ensures
        m@ == (if is_gif {
            "**GIF Vision Analysis (Part 1):**\n```\nProcessing GIF file (extracting frame for analysis)...\n\n```"@
        } else {
            "**Vision Analysis (Part 1):**\n```\n\n```"@
        }),
{
    if is_gif {
        String::from_str(
            "**GIF Vision Analysis (Part 1):**\n```\nProcessing GIF file (extracting frame for analysis)...\n\n```",
        )
    } else {
        String::from_str("**Vision Analysis (Part 1):**\n```\n\n```")
    }
}

/// The first message once a GIF has been converted to PNG.
pub fn gif_converted_text() -> (m: String)
    ensures
        m@ == "**GIF Vision Analysis (Part 1):**\n```\nGIF converted to PNG for analysis...\n\n```"@,
{
    String::from_str("**GIF Vision Analysis (Part 1):**\n```\nGIF converted to PNG for analysis...\n\n```")
}

/// The error for a vision request the server refused, given the status code,
/// the status as displayed and the response body.
pub open spec fn vision_api_error_spec(code: u16, status: Seq<char>, body: Seq<char>, model: Seq<char>) -> Seq<char> {
    if code == 404 && contains_pat(body, "model"@) && contains_pat(body, "not found"@) {
        "Vision model '"@ + model
            + "' is not loaded in LM Studio.\n\n**To fix this:**\n1. Open LM Studio\n2. Go to 'My Models' tab\n3. Find '"@
            + model + "' and click 'Load'\n4. Wait for it to fully load\n5. Try the vision command again"@
    } else if code == 404 && contains_pat(body, "No models loaded"@) {
        "No models are loaded in LM Studio.\n\n**To fix this:**\n1. Open LM Studio\n2. Go to 'My Models' tab\n3. Find and load the vision model: '"@
            + model + "'\n4. Wait for it to fully load\n5. Try the vision command again"@
    } else {
        "Vision API error: "@ + status + " - "@ + body
    }
}

/// Explains a refused vision request.
pub fn vision_api_error(code: u16, status: &str, body: &str, model: &str) -> (m: String)
    ensures
        m@ == vision_api_error_spec(code, status@, body@, model@),
{
    if code == 404 && contains_str(body, "model") && contains_str(body, "not found") {
        let mut out = to_chars("Vision model '");
        push_str(&mut out, model);
        push_str(&mut out, "' is not loaded in LM Studio.\n\n**To fix this:**\n1. Open LM Studio\n2. Go to 'My Models' tab\n3. Find '");
        push_str(&mut out, model);
        push_str(&mut out, "' and click 'Load'\n4. Wait for it to fully load\n5. Try the vision command again");
        from_chars(out.as_slice())
    } else if code == 404 && contains_str(body, "No models loaded") {
        let mut out = to_chars("No models are loaded in LM Studio.\n\n**To fix this:**\n1. Open LM Studio\n2. Go to 'My Models' tab\n3. Find and load the vision model: '");
        push_str(&mut out, model);
        push_str(&mut out, "'\n4. Wait for it to fully load\n5. Try the vision command again");
        from_chars(out.as_slice())
    } else {
        let mut out = to_chars("Vision API error: ");
        push_str(&mut out, status);
        push_str(&mut out, " - ");
        push_str(&mut out, body);
        from_chars(out.as_slice())
    }
}

} // verus!
