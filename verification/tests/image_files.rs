use gigachat::images::{
    cache_candidates, download_extension, extension_from_header, must_download, needs_format_probe, probed_extension,
    twitch_emote_urls, HeaderKind,
};

fn s(x: &str) -> String {
    x.to_string()
}

#[test]
fn twitch_message_emote_tries_animated_first() {
    assert_eq!(
        twitch_emote_urls("25"),
        vec![
            s("https://static-cdn.jtvnw.net/emoticons/v2/25/animated/light/3.0"),
            s("https://static-cdn.jtvnw.net/emoticons/v2/25/static/light/3.0"),
        ]
    );
}

#[test]
fn cache_files_in_format_order() {
    assert_eq!(
        cache_candidates("cache/twitch/", "25"),
        vec![s("cache/twitch/25.png"), s("cache/twitch/25.gif"), s("cache/twitch/25.webp"), s("cache/twitch/25.svg")]
    );
}

#[test]
fn extension_read_from_headers() {
    let url = "https://cdn.example/e/1";
    assert_eq!(extension_from_header(HeaderKind::ContentType, "image/PNG", url), Some(s("png")));
    assert_eq!(extension_from_header(HeaderKind::ContentType, "image/gif  ", url), Some(s("gif")));
    assert_eq!(extension_from_header(HeaderKind::ContentDisposition, "inline; filename=\"a.WEBP\"", url), Some(s("webp")));
    assert_eq!(extension_from_header(HeaderKind::ContentType, "application/octet-stream", url), None);
    assert_eq!(extension_from_header(HeaderKind::ContentType, "image/svg+xml", "https://yt.example/e.svg"), Some(s("svg")));
    assert_eq!(extension_from_header(HeaderKind::Accept, "image/apng,image/*", url), Some(s("png")));
    assert_eq!(extension_from_header(HeaderKind::Accept, "image/webp", url), Some(s("webp")));
    assert_eq!(extension_from_header(HeaderKind::Accept, "text/html", url), None);
    assert_eq!(extension_from_header(HeaderKind::Other, "image/png", url), None);
}

#[test]
fn first_telling_header_wins() {
    let url = "https://cdn.example/e/1";
    let headers = vec![
        (HeaderKind::Other, s("image/png")),
        (HeaderKind::ContentType, s("application/octet-stream")),
        (HeaderKind::ContentType, s("image/gif")),
        (HeaderKind::Accept, s("image/png")),
    ];
    assert_eq!(download_extension(&None, &headers, url), Some(s("gif")));
    // an extension named by the request is kept
    assert_eq!(download_extension(&Some(s("webp")), &headers, url), Some(s("webp")));
    assert_eq!(download_extension(&None, &vec![], url), None);
}

#[test]
fn probing_the_format() {
    assert!(needs_format_probe("cache/7tv/", &Some(s("png")), false));
    assert!(needs_format_probe("cache/bttv/", &None, false));
    assert!(needs_format_probe("cache/bttv/", &Some(s("png")), true));
    assert!(!needs_format_probe("cache/bttv/", &Some(s("png")), false));
    assert_eq!(probed_extension(true, true, true, false), s("gif"));
    assert_eq!(probed_extension(false, true, false, true), s("webp"));
    assert_eq!(probed_extension(false, false, false, false), s("png"));
    assert_eq!(probed_extension(false, false, true, true), s("png"));
    assert_eq!(probed_extension(false, false, false, true), s("unknown"));
}

#[test]
fn failed_downloads_are_not_retried() {
    assert!(!must_download(true, &Some(s("png"))));
    assert!(must_download(false, &Some(s("png"))));
    assert!(must_download(false, &None));
    assert!(!must_download(false, &Some(s("unknown"))));
}
