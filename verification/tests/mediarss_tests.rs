use mediarss::duration::MediaDuration;
use mediarss::mediarss::{
    handle_media_community, handle_media_content, handle_media_credit, handle_media_element,
    handle_media_group, handle_media_text, handle_media_thumbnail, handle_text,
};
use mediarss::model::{MediaError, MediaObject, TextKind};
use mediarss::xml::{Attribute, Child, Element, Fetched, Ns};

fn attr(name: &str, value: &str) -> Attribute {
    Attribute { name: name.to_string(), value: value.to_string() }
}

fn elem(ns: Ns, tag: &str) -> Element {
    Element {
        ns,
        tag: tag.to_string(),
        attributes: vec![],
        children: vec![],
        flat_text: Fetched::Absent,
        serialized: Fetched::Absent,
    }
}

#[test]
fn content_without_url_commits_nothing() {
    let mut e = elem(Ns::MediaRss, "content");
    e.attributes = vec![attr("type", "image/png"), attr("width", "100"), attr("height", "60")];
    // even a nested thumbnail is not read when the url is missing
    let mut nested = elem(Ns::MediaRss, "thumbnail");
    nested.attributes = vec![attr("url", "http://img/1.png")];
    e.children = vec![Child::Node(nested)];
    let mut obj = MediaObject::new();
    assert!(handle_media_element(&e, &mut obj).is_ok());
    assert!(obj.content.is_none());
    assert!(obj.thumbnails.is_empty());
}

#[test]
fn content_with_url_commits_record_and_children() {
    let mut e = elem(Ns::MediaRss, "content");
    e.attributes = vec![
        attr("url", "http://media/movie.mp4"),
        attr("type", "image/png"),
        attr("width", "1280"),
        attr("height", "720"),
    ];
    let mut nested = elem(Ns::MediaRss, "thumbnail");
    nested.attributes = vec![attr("url", "http://img/1.png")];
    e.children = vec![Child::Node(nested)];
    let mut obj = MediaObject::new();
    assert!(handle_media_element(&e, &mut obj).is_ok());
    let c = obj.content.expect("content was committed");
    assert_eq!(c.url.as_deref(), Some("http://media/movie.mp4"));
    assert_eq!(c.content_type.as_deref(), Some("image/png"));
    assert_eq!(c.width, Some(1280));
    assert_eq!(c.height, Some(720));
    assert_eq!(obj.thumbnails.len(), 1);
    assert_eq!(obj.thumbnails[0].image.url, "http://img/1.png");
}

#[test]
fn content_rejects_bad_mime_and_numbers_silently() {
    let mut e = elem(Ns::MediaRss, "content");
    e.attributes = vec![
        attr("url", "http://media/movie.mp4"),
        attr("type", "weird"),
        attr("width", "abc"),
        attr("height", "5000000000"),
    ];
    let mut obj = MediaObject::new();
    assert!(handle_media_element(&e, &mut obj).is_ok());
    let c = obj.content.expect("content was committed");
    assert!(c.content_type.is_none());
    assert!(c.width.is_none());
    assert!(c.height.is_none());
}

#[test]
fn outer_content_overwrites_nested_content() {
    let mut inner = elem(Ns::MediaRss, "content");
    inner.attributes = vec![attr("url", "http://inner")];
    let mut outer = elem(Ns::MediaRss, "content");
    outer.attributes = vec![attr("url", "http://outer")];
    outer.children = vec![Child::Node(inner)];
    let mut obj = MediaObject::new();
    assert!(handle_media_element(&outer, &mut obj).is_ok());
    assert_eq!(obj.content.unwrap().url.as_deref(), Some("http://outer"));
}

#[test]
fn thumbnail_without_url_is_dropped() {
    let mut e = elem(Ns::MediaRss, "thumbnail");
    e.attributes = vec![attr("width", "100"), attr("height", "60"), attr("time", "12:05:35")];
    assert!(handle_media_thumbnail(&e).unwrap().is_none());
    let mut obj = MediaObject::new();
    assert!(handle_media_element(&e, &mut obj).is_ok());
    assert!(obj.thumbnails.is_empty());
}

#[test]
fn thumbnail_reads_all_attributes() {
    let mut e = elem(Ns::MediaRss, "thumbnail");
    e.attributes = vec![
        attr("url", "http://img/a.png"),
        attr("width", "+100"),
        attr("height", "60"),
        attr("time", "0:00:01.5"),
        attr("extra", "ignored"),
    ];
    let t = handle_media_thumbnail(&e).unwrap().expect("a record");
    assert_eq!(t.image.url, "http://img/a.png");
    assert_eq!(t.image.width, Some(100));
    assert_eq!(t.image.height, Some(60));
    assert_eq!(t.time, Some(MediaDuration::from_millis(1500)));
}

#[test]
fn thumbnail_last_url_wins_and_bad_time_is_ignored() {
    let mut e = elem(Ns::MediaRss, "thumbnail");
    e.attributes = vec![
        attr("url", "http://img/first.png"),
        attr("url", "http://img/second.png"),
        attr("time", "junk"),
    ];
    let t = handle_media_thumbnail(&e).unwrap().expect("a record");
    assert_eq!(t.image.url, "http://img/second.png");
    assert!(t.time.is_none());
}

#[test]
fn title_with_unknown_type_aborts() {
    let mut e = elem(Ns::MediaRss, "title");
    e.attributes = vec![attr("type", "weird")];
    e.serialized = Fetched::Text("A title".to_string());
    assert_eq!(
        handle_text(&e).unwrap_err(),
        MediaError::UnknownMimeType("weird".to_string())
    );
    let mut obj = MediaObject::new();
    assert_eq!(
        handle_media_element(&e, &mut obj).unwrap_err(),
        MediaError::UnknownMimeType("weird".to_string())
    );
}

#[test]
fn title_without_type_defaults_to_plain() {
    let mut e = elem(Ns::MediaRss, "title");
    e.serialized = Fetched::Text("A title".to_string());
    let t = handle_text(&e).unwrap().expect("a record");
    assert_eq!(t.content, "A title");
    assert_eq!(t.content_type, TextKind::Plain);
}

#[test]
fn title_first_type_attribute_wins() {
    let mut e = elem(Ns::MediaRss, "title");
    e.attributes = vec![attr("type", "html"), attr("type", "plain")];
    e.serialized = Fetched::Text("<b>bold</b>".to_string());
    let t = handle_text(&e).unwrap().expect("a record");
    assert_eq!(t.content_type, TextKind::Html);
}

#[test]
fn title_without_content_aborts() {
    let mut e = elem(Ns::MediaRss, "title");
    e.attributes = vec![attr("type", "plain")];
    assert_eq!(handle_text(&e).unwrap_err(), MediaError::MissingContent);
}

#[test]
fn description_is_assigned_like_title() {
    let mut e = elem(Ns::MediaRss, "description");
    e.attributes = vec![attr("type", "html")];
    e.serialized = Fetched::Text("<p>desc</p>".to_string());
    let mut obj = MediaObject::new();
    assert!(handle_media_element(&e, &mut obj).is_ok());
    let d = obj.description.expect("a description");
    assert_eq!(d.content, "<p>desc</p>");
    assert_eq!(d.content_type, TextKind::Html);
}

#[test]
fn community_bad_average_keeps_default_without_fault() {
    let mut star = elem(Ns::MediaRss, "starRating");
    star.attributes = vec![attr("average", "abc")];
    let mut e = elem(Ns::MediaRss, "community");
    e.children = vec![Child::Node(star)];
    let c = handle_media_community(&e).unwrap().expect("a record");
    assert!(c.stars_avg.is_none());
    assert_eq!(c.stars_count, 0);
}

#[test]
fn community_valid_star_rating_fills_all_four_fields() {
    let mut star = elem(Ns::MediaRss, "starRating");
    star.attributes = vec![
        attr("average", "4.5"),
        attr("count", "10"),
        attr("min", "1"),
        attr("max", "5"),
    ];
    let mut e = elem(Ns::MediaRss, "community");
    e.children = vec![Child::Node(star)];
    let c = handle_media_community(&e).unwrap().expect("a record");
    assert_eq!(c.stars_avg.as_deref(), Some("4.5"));
    assert_eq!(c.stars_avg.as_deref().unwrap().parse::<f64>().unwrap(), 4.5);
    assert_eq!(c.stars_count, 10);
    assert_eq!(c.stars_min, 1);
    assert_eq!(c.stars_max, 5);
}

#[test]
fn community_statistics_and_unknown_children() {
    let mut stats = elem(Ns::MediaRss, "statistics");
    stats.attributes = vec![attr("views", "5000000000"), attr("favorites", "3"), attr("other", "9")];
    let unknown = elem(Ns::MediaRss, "player");
    let foreign = elem(Ns::Other, "statistics");
    let mut e = elem(Ns::MediaRss, "community");
    e.children = vec![Child::Node(unknown), Child::Node(stats), Child::Node(foreign)];
    let c = handle_media_community(&e).unwrap().expect("a record");
    assert_eq!(c.stats_views, 5000000000);
    assert_eq!(c.stats_favorites, 3);
    assert!(c.stars_avg.is_none());
}

#[test]
fn community_faulty_child_aborts() {
    let mut e = elem(Ns::MediaRss, "community");
    e.children = vec![Child::Fault];
    assert_eq!(handle_media_community(&e).unwrap_err(), MediaError::WalkerFault);
}

#[test]
fn credit_needs_text() {
    let mut e = elem(Ns::MediaRss, "credit");
    e.flat_text = Fetched::Text("Alice".to_string());
    assert_eq!(handle_media_credit(&e).unwrap().unwrap().text, "Alice");
    e.flat_text = Fetched::Absent;
    assert!(handle_media_credit(&e).unwrap().is_none());
    e.flat_text = Fetched::Fault;
    assert_eq!(handle_media_credit(&e).unwrap_err(), MediaError::WalkerFault);
}

#[test]
fn caption_reads_bounds_and_type() {
    let mut e = elem(Ns::MediaRss, "text");
    e.attributes = vec![attr("start", "1.5"), attr("end", "0:00:03"), attr("type", "html")];
    e.flat_text = Fetched::Text("hello".to_string());
    let t = handle_media_text(&e).unwrap().expect("a record");
    assert_eq!(t.text.content, "hello");
    assert_eq!(t.text.content_type, TextKind::Html);
    assert_eq!(t.start_time, Some(MediaDuration::from_millis(1500)));
    assert_eq!(t.end_time, Some(MediaDuration::from_secs(3)));
}

#[test]
fn caption_unknown_type_defaults_to_plain_and_needs_text() {
    let mut e = elem(Ns::MediaRss, "text");
    e.attributes = vec![attr("type", "weird")];
    e.flat_text = Fetched::Text("hello".to_string());
    let t = handle_media_text(&e).unwrap().expect("a record");
    assert_eq!(t.text.content_type, TextKind::Plain);
    e.flat_text = Fetched::Absent;
    assert!(handle_media_text(&e).unwrap().is_none());
}

#[test]
fn group_of_empty_element_yields_default_object() {
    let e = elem(Ns::MediaRss, "group");
    let obj = handle_media_group(&e).unwrap().expect("always an object");
    assert_eq!(obj, MediaObject::new());
}

#[test]
fn group_collects_children_in_document_order() {
    let mut title = elem(Ns::MediaRss, "title");
    title.serialized = Fetched::Text("T".to_string());
    let mut th1 = elem(Ns::MediaRss, "thumbnail");
    th1.attributes = vec![attr("url", "http://img/1.png")];
    let mut th2 = elem(Ns::MediaRss, "thumbnail");
    th2.attributes = vec![attr("url", "http://img/2.png")];
    let mut credit = elem(Ns::MediaRss, "credit");
    credit.flat_text = Fetched::Text("Bob".to_string());
    let foreign = elem(Ns::Other, "thumbnail");
    let mut e = elem(Ns::MediaRss, "group");
    e.children = vec![
        Child::Node(title),
        Child::Node(th1),
        Child::Node(foreign),
        Child::Node(th2),
        Child::Node(credit),
    ];
    let obj = handle_media_group(&e).unwrap().expect("always an object");
    assert_eq!(obj.title.unwrap().content, "T");
    assert_eq!(obj.thumbnails.len(), 2);
    assert_eq!(obj.thumbnails[0].image.url, "http://img/1.png");
    assert_eq!(obj.thumbnails[1].image.url, "http://img/2.png");
    assert_eq!(obj.credits.len(), 1);
    assert_eq!(obj.credits[0].text, "Bob");
}

#[test]
fn group_faulty_child_aborts() {
    let mut e = elem(Ns::MediaRss, "group");
    e.children = vec![Child::Fault];
    assert_eq!(handle_media_group(&e).unwrap_err(), MediaError::WalkerFault);
}

#[test]
fn unknown_tags_are_ignored_without_altering_siblings() {
    let mut title = elem(Ns::MediaRss, "title");
    title.serialized = Fetched::Text("T".to_string());
    let unknown = elem(Ns::MediaRss, "player");
    let mut e = elem(Ns::MediaRss, "group");
    e.children = vec![Child::Node(title), Child::Node(unknown)];
    let obj = handle_media_group(&e).unwrap().expect("always an object");
    assert_eq!(obj.title.unwrap().content, "T");
    assert!(obj.content.is_none() && obj.thumbnails.is_empty() && obj.community.is_none());

    // dispatching an unknown element directly leaves the accumulator as it was
    let mut obj2 = MediaObject::new();
    let unknown2 = elem(Ns::MediaRss, "player");
    assert!(handle_media_element(&unknown2, &mut obj2).is_ok());
    assert_eq!(obj2, MediaObject::new());
}

#[test]
fn last_title_wins() {
    let mut t1 = elem(Ns::MediaRss, "title");
    t1.serialized = Fetched::Text("first".to_string());
    let mut t2 = elem(Ns::MediaRss, "title");
    t2.serialized = Fetched::Text("second".to_string());
    let mut e = elem(Ns::MediaRss, "group");
    e.children = vec![Child::Node(t1), Child::Node(t2)];
    let obj = handle_media_group(&e).unwrap().expect("always an object");
    assert_eq!(obj.title.unwrap().content, "second");
}

#[test]
fn nested_walker_fault_propagates_through_content() {
    let mut content = elem(Ns::MediaRss, "content");
    content.attributes = vec![attr("url", "http://media/x")];
    content.children = vec![Child::Fault];
    let mut e = elem(Ns::MediaRss, "group");
    e.children = vec![Child::Node(content)];
    assert_eq!(handle_media_group(&e).unwrap_err(), MediaError::WalkerFault);
}

#[test]
fn content_handler_alone_respects_missing_url() {
    let mut e = elem(Ns::MediaRss, "content");
    e.attributes = vec![attr("TYPE", "image/png")];
    let mut obj = MediaObject::new();
    assert!(handle_media_content(&e, &mut obj).is_ok());
    assert!(obj.content.is_none());
}
