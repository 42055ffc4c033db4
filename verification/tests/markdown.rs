use logsday::markdown::{html_plan_of, render_markdown_to_html, rewrite_events, EventRewrite, HtmlPiece, MdEventKind};

#[test]
fn html_is_shown_as_text() {
    let html = render_markdown_to_html("<b>hi</b> and <script>alert(1)</script>");
    assert!(!html.contains("<b>"));
    assert!(!html.contains("<script>"));
    assert!(html.contains("&lt;b&gt;"));
}

#[test]
fn html_block_is_shown_as_text() {
    let html = render_markdown_to_html("<div>\nblock\n</div>\n");
    assert!(!html.contains("<div>"));
    assert!(html.contains("&lt;div&gt;"));
}

#[test]
fn mp4_image_becomes_video() {
    let html = render_markdown_to_html("![](clip.mp4)");
    assert!(html.contains(r#"<video controls><source src="clip.mp4" type="video/mp4"></source>"#));
    assert!(html.contains("</video>"));
    assert!(!html.contains("<img"));
}

#[test]
fn other_image_stays_image() {
    let html = render_markdown_to_html("![alt](pic.png)");
    assert!(html.contains(r#"<img src="pic.png" alt="alt""#));
    assert!(!html.contains("<video"));
}

#[test]
fn tables_and_strikethrough() {
    let html = render_markdown_to_html("~~gone~~\n\n| a | b |\n|---|---|\n| 1 | 2 |\n");
    assert!(html.contains("<del>gone</del>"));
    assert!(html.contains("<table>"));
}

#[test]
fn rewrites_of_events() {
    let kinds = vec![
        MdEventKind::Html("<x>".to_string()),
        MdEventKind::ImageStart("a.mp4".to_string()),
        MdEventKind::Other,
        MdEventKind::ImageEnd,
        MdEventKind::ImageStart("a.MP4".to_string()),
        MdEventKind::ImageEnd,
        MdEventKind::InlineHtml("<y>".to_string()),
    ];
    let r = rewrite_events(&kinds);
    assert_eq!(r.len(), 7);
    assert!(matches!(r[0], EventRewrite::ToText));
    assert!(matches!(&r[1], EventRewrite::EmitHtml(h) if h == r#"<video controls><source src="a.mp4" type="video/mp4"></source>"#));
    assert!(matches!(r[2], EventRewrite::Keep));
    assert!(matches!(&r[3], EventRewrite::EmitHtml(h) if h == "</video>"));
    assert!(matches!(&r[4], EventRewrite::EmitHtml(h) if h == r#"<video controls><source src="a.MP4" type="video/mp4"></source>"#));
    assert!(matches!(&r[5], EventRewrite::EmitHtml(h) if h == "</video>"));
    assert!(matches!(r[6], EventRewrite::ToText));
}

#[test]
fn law_only_video_tags_are_raw_html() {
    let kinds = vec![
        MdEventKind::ImageEnd,
        MdEventKind::Html("<p>".to_string()),
        MdEventKind::ImageStart("v.mp4".to_string()),
        MdEventKind::ImageEnd,
        MdEventKind::ImageEnd,
    ];
    let r = rewrite_events(&kinds);
    for (k, a) in kinds.iter().zip(r.iter()) {
        match a {
            EventRewrite::EmitHtml(h) => assert!(h.starts_with("<video") || h == "</video>"),
            EventRewrite::Keep => assert!(!matches!(k, MdEventKind::Html(_) | MdEventKind::InlineHtml(_))),
            EventRewrite::ToText => assert!(matches!(k, MdEventKind::Html(_) | MdEventKind::InlineHtml(_))),
        }
    }
    assert!(matches!(r[0], EventRewrite::Keep));
    assert!(matches!(r[4], EventRewrite::Keep));
}

#[test]
fn inline_html_is_escaped_exactly() {
    assert_eq!(render_markdown_to_html("<b>x</b>"), "<p>&lt;b&gt;x&lt;/b&gt;</p>\n");
}

#[test]
fn mp4_image_is_exactly_a_player() {
    assert_eq!(
        render_markdown_to_html("![](a.mp4)"),
        "<p><video controls><source src=\"a.mp4\" type=\"video/mp4\"></source></video></p>\n"
    );
}

#[test]
fn strikethrough_is_exactly_del() {
    assert_eq!(render_markdown_to_html("~~gone~~"), "<p><del>gone</del></p>\n");
}

#[test]
fn plain_paragraph() {
    assert_eq!(render_markdown_to_html("hello *world*"), "<p>hello <em>world</em></p>\n");
    assert_eq!(render_markdown_to_html(""), "");
}

#[test]
fn plan_of_events() {
    let kinds = vec![
        MdEventKind::Other,
        MdEventKind::InlineHtml("<i>".to_string()),
        MdEventKind::ImageStart("v.mp4".to_string()),
        MdEventKind::Other,
        MdEventKind::ImageEnd,
        MdEventKind::ImageStart("p.png".to_string()),
        MdEventKind::ImageEnd,
    ];
    let plan = html_plan_of(&kinds);
    assert_eq!(plan.len(), 7);
    assert!(matches!(plan[0], HtmlPiece::Parsed(0)));
    assert!(matches!(&plan[1], HtmlPiece::Text(t) if t == "<i>"));
    assert!(matches!(&plan[2], HtmlPiece::Html(h) if h == r#"<video controls><source src="v.mp4" type="video/mp4"></source>"#));
    assert!(matches!(plan[3], HtmlPiece::Parsed(3)));
    assert!(matches!(&plan[4], HtmlPiece::Html(h) if h == "</video>"));
    assert!(matches!(plan[5], HtmlPiece::Parsed(5)));
    assert!(matches!(plan[6], HtmlPiece::Parsed(6)));
}

#[test]
fn media_embeds_follow_the_media_type() {
    assert_eq!(
        render_markdown_to_html("![](clip.webm)"),
        "<p><video controls><source src=\"clip.webm\" type=\"video/webm\"></source></video></p>\n"
    );
    assert_eq!(
        render_markdown_to_html("![](song.mp3)"),
        "<p><audio controls><source src=\"song.mp3\" type=\"audio/mpeg\"></source></audio></p>\n"
    );
    let html = render_markdown_to_html("![](a.OGA) ![](b.wav) ![](c.weba)");
    assert!(html.contains(r#"<audio controls><source src="a.OGA" type="audio/ogg"></source></audio>"#));
    assert!(html.contains(r#"<audio controls><source src="b.wav" type="audio/wav"></source></audio>"#));
    assert!(html.contains(r#"<audio controls><source src="c.weba" type="audio/webm"></source></audio>"#));
    let html = render_markdown_to_html("![](doc.txt)");
    assert!(html.contains("<img"));
    assert!(!html.contains("<video") && !html.contains("<audio"));
}

#[test]
fn player_address_is_escaped() {
    let kinds = vec![
        MdEventKind::ImageStart(r#"x"><script>&.mp4"#.to_string()),
        MdEventKind::ImageEnd,
    ];
    let r = rewrite_events(&kinds);
    assert!(matches!(&r[0], EventRewrite::EmitHtml(h)
        if h == r#"<video controls><source src="x&quot;&gt;&lt;script&gt;&amp;.mp4" type="video/mp4"></source>"#));
    assert!(!render_markdown_to_html(r#"![](x"><script>.mp4)"#).contains("<script>"));
}

#[test]
fn audio_player_is_closed_as_audio() {
    let kinds = vec![
        MdEventKind::ImageStart("s.mp3".to_string()),
        MdEventKind::Other,
        MdEventKind::ImageEnd,
    ];
    let r = rewrite_events(&kinds);
    assert!(matches!(&r[2], EventRewrite::EmitHtml(h) if h == "</audio>"));
}
