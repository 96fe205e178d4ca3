use clipchamp::clipboard::{
    can_preview, classify_text, clipboard_reading, listened_content, prepare_write, WritePlan, image_content, preview_content, preview_content_checked, text_content,
    url_content, ClipboardWatcher,
};
use clipchamp::protocol::{content_hash, ClipboardContent, ContentType};

#[test]
fn constructors_keep_bytes_and_kind() {
    let t = text_content("héllo");
    assert_eq!(t.content_type, ContentType::Text);
    assert_eq!(t.data, "héllo".as_bytes());
    let u = url_content("https://x.org");
    assert_eq!(u.content_type, ContentType::Url);
    assert_eq!(u.data, b"https://x.org");
    let i = image_content(vec![137, 80, 78, 71]);
    assert_eq!(i.content_type, ContentType::Image);
    assert_eq!(i.data, vec![137, 80, 78, 71]);
}

#[test]
fn preview_keeps_short_text() {
    assert_eq!(preview_content(&text_content("hello"), 5), "hello");
    assert_eq!(preview_content(&url_content("http://a"), 60), "http://a");
}

#[test]
fn preview_cuts_long_text() {
    assert_eq!(preview_content(&text_content("hello world"), 5), "hello...");
    assert_eq!(preview_content(&text_content("hello world"), 0), "...");
}

#[test]
fn preview_of_image_gives_size() {
    assert_eq!(preview_content(&image_content(vec![1, 2, 3]), 1), "[image 3 bytes]");
    assert_eq!(preview_content(&image_content(vec![0; 1234]), 1), "[image 1234 bytes]");
    assert_eq!(preview_content(&image_content(vec![]), 1), "[image 0 bytes]");
}

#[test]
fn preview_reads_invalid_utf8_leniently() {
    let c = ClipboardContent { content_type: ContentType::Text, data: vec![b'a', 0xff, b'b'] };
    assert_eq!(preview_content(&c, 60), "a\u{fffd}b");
}

#[test]
fn preview_inside_a_character_is_refused() {
    let c = text_content("héllo");
    // 'é' takes bytes 1 and 2: a cut after byte 2 would split it.
    assert!(!can_preview(c.content_type, &c.data, 2));
    assert_eq!(preview_content_checked(&c, 2), None);
    assert_eq!(preview_content_checked(&c, 3), Some("hé...".to_string()));
    assert!(can_preview(ContentType::Image, &c.data, 2));
}

#[test]
fn classify_text_finds_urls() {
    assert_eq!(classify_text("http://example.com"), ContentType::Url);
    assert_eq!(classify_text("https://example.com"), ContentType::Url);
    assert_eq!(classify_text("http:/example.com"), ContentType::Text);
    assert_eq!(classify_text("ftp://example.com"), ContentType::Text);
    assert_eq!(classify_text("https:/"), ContentType::Text);
    assert_eq!(classify_text(""), ContentType::Text);
}

#[test]
fn listened_content_follows_mime_type() {
    let c = listened_content("text/plain;charset=utf-8", b"https://x".to_vec());
    assert_eq!(c.content_type, ContentType::Url);
    assert_eq!(c.data, b"https://x");
    let c = listened_content("text/plain", vec![b'a', 0xff]);
    assert_eq!(c.content_type, ContentType::Text);
    assert_eq!(c.data, "a\u{fffd}".as_bytes());
    let c = listened_content("image/png", vec![0x89, b'P']);
    assert_eq!(c.content_type, ContentType::Image);
    assert_eq!(c.data, vec![0x89, b'P']);
}

#[test]
fn clipboard_reading_prefers_text() {
    let r = clipboard_reading(Some("http://a".to_string()), Some((1, 1, vec![0; 4]))).unwrap().unwrap();
    assert_eq!(r.content_type, ContentType::Url);
    assert_eq!(r.data, b"http://a");
    assert!(clipboard_reading(None, None).unwrap().is_none());
    assert!(clipboard_reading(Some(String::new()), None).unwrap().is_none());
}

#[test]
fn clipboard_images_travel_as_png() {
    let pixels = vec![10u8, 20, 30, 255, 40, 50, 60, 128];
    let c = clipboard_reading(Some(String::new()), Some((2, 1, pixels.clone()))).unwrap().unwrap();
    assert_eq!(c.content_type, ContentType::Image);
    assert_eq!(&c.data[..8], &[0x89, b'P', b'N', b'G', 0x0d, 0x0a, 0x1a, 0x0a]);
    let (echo, plan) = prepare_write(&c);
    assert_eq!(echo, content_hash(&c.data));
    match plan.unwrap() {
        WritePlan::Image { width, height, rgba } => {
            assert_eq!((width, height), (2, 1));
            assert_eq!(rgba, pixels);
        }
        WritePlan::Text(_) => panic!("image written as text"),
    }
    assert!(clipboard_reading(None, Some((2, 2, pixels))).unwrap().is_none());
}

#[test]
fn prepare_write_of_text_and_bad_image() {
    match prepare_write(&text_content("héllo")).1.unwrap() {
        WritePlan::Text(t) => assert_eq!(t, "héllo"),
        WritePlan::Image { .. } => panic!("text written as image"),
    }
    assert!(prepare_write(&image_content(vec![1, 2, 3])).1.is_err());
}

#[test]
fn watcher_drops_repeats_and_echoes() {
    let mut w = ClipboardWatcher::new();
    let a = text_content("a");
    let b = text_content("b");
    assert!(w.observe(a.clone(), None).is_some());
    assert!(w.observe(a.clone(), None).is_none());
    let echo = Some(content_hash(b"b"));
    assert!(w.observe(b.clone(), echo).is_none());
    let out = w.observe(b.clone(), None).unwrap();
    assert_eq!(out.data, b"b");
    assert!(w.observe(a.clone(), None).is_some());
}

#[test]
fn own_write_is_not_echoed() {
    let mut w = ClipboardWatcher::new();
    let c = text_content("mine");
    let (echo, _) = prepare_write(&c);
    assert!(w.observe(c, Some(echo)).is_none());
}
