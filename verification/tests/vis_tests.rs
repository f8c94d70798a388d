use meri_bot::commands::lm::{MessageContent, MessageState};
use meri_bot::commands::vis::{attachment_content_type, create_vision_message, gif_converted_text, gif_step, initial_vision_text, is_gif_attachment, vision_api_error, vision_payload, GifStep};

#[test]
fn vision_message_carries_prompt_and_image() {
    let m = create_vision_message("What is this?", "QUJD", "image/png");
    assert_eq!(m.len(), 2);
    assert_eq!(m[0].role, "system");
    assert_eq!(m[1].role, "user");
    match &m[1].content[0] {
        MessageContent::Text { content_type, text } => {
            assert_eq!(content_type, "text");
            assert_eq!(text, "What is this?");
        }
        _ => panic!("expected text"),
    }
    match &m[1].content[1] {
        MessageContent::Image { content_type, image_url } => {
            assert_eq!(content_type, "image_url");
            assert_eq!(image_url.url, "data:image/png;base64,QUJD");
        }
        _ => panic!("expected an image"),
    }
}

#[test]
fn attachments_are_typed_and_encoded() {
    assert_eq!(attachment_content_type(Some("image/webp".to_string()), "a.png"), "image/webp");
    assert_eq!(attachment_content_type(None, "photo.png"), "image/png");
    assert_eq!(attachment_content_type(None, "noext"), "image/jpeg");
    assert!(is_gif_attachment("image/gif", "x.png"));
    assert!(is_gif_attachment("", "ANIM.GIF"));
    assert!(!is_gif_attachment("image/png", "gif.png"));
    let (b64, ct) = vision_payload(&b"Man".to_vec(), "image/png".to_string());
    assert_eq!(b64, "TWFu");
    assert_eq!(ct, "image/png");
    assert_eq!(vision_payload(&b"Ma".to_vec(), String::new()).0, "TWE=");
    assert!(matches!(gif_step(&b"not a gif".to_vec()), Err(_) | Ok(GifStep::TryFirstFrame)));
    assert!(initial_vision_text(true).starts_with("**GIF Vision Analysis (Part 1):**"));
    assert_eq!(initial_vision_text(false), "**Vision Analysis (Part 1):**\n```\n\n```");
    assert!(gif_converted_text().contains("GIF converted to PNG"));
}

#[test]
fn smallest_gif_becomes_png() {
    // A 1x1 GIF.
    let gif: Vec<u8> = vec![
        0x47, 0x49, 0x46, 0x38, 0x39, 0x61, 0x01, 0x00, 0x01, 0x00, 0x80, 0x00, 0x00, 0x00, 0x00,
        0x00, 0xff, 0xff, 0xff, 0x21, 0xf9, 0x04, 0x01, 0x00, 0x00, 0x00, 0x00, 0x2c, 0x00, 0x00,
        0x00, 0x00, 0x01, 0x00, 0x01, 0x00, 0x00, 0x02, 0x02, 0x44, 0x01, 0x00, 0x3b,
    ];
    match gif_step(&gif) {
        Ok(GifStep::Use(png, ct)) => {
            assert_eq!(ct, "image/png");
            assert_eq!(&png[..8], &[0x89, b'P', b'N', b'G', 0x0d, 0x0a, 0x1a, 0x0a]);
        }
        _ => panic!("expected a PNG"),
    }
}

#[test]
fn vision_errors_are_explained() {
    assert!(vision_api_error(404, "404 Not Found", "model xyz not found", "vis").starts_with("Vision model 'vis' is not loaded in LM Studio."));
    assert!(vision_api_error(404, "404 Not Found", "No models loaded", "vis").starts_with("No models are loaded in LM Studio."));
    assert_eq!(vision_api_error(500, "500 Internal Server Error", "boom", "vis"), "Vision API error: 500 Internal Server Error - boom");
}

#[test]
fn chat_message_state_grows() {
    let mut st = MessageState { current_content: String::new(), message_index: 1, char_limit: 1900 };
    assert_eq!(st.update_chat_message("ab"), "**Part 1:**\n```\nab\n```");
    assert_eq!(st.finalize_chat_message(""), "**Part 1:**\n```\nab\n```");
    assert_eq!(st.finalize_chat_message("c"), "**Part 1:**\n```\nabc\n```");
    assert_eq!(st.current_content, "abc");
}
