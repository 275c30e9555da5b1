use caldav_tasks::collection::{collections_from_document, task_query_request};
use caldav_tasks::discovery::{
    calendar_list_request, calendars_from_document, home_set_request, home_set_url_from_document,
    principal_request, principal_url_from_document, Calendar,
};
use caldav_tasks::error::ErrorKind;
use caldav_tasks::transport::Method;
use caldav_tasks::urlutil::join_url;
use caldav_tasks::xml::{apply_xml_path, XmlElement};

const BASE: &str = "https://cal.example.com/dav/";

fn response(inner: &str) -> String {
    format!("<multistatus xmlns=\"DAV:\">{}</multistatus>", inner)
}

fn calendar_entry(href: &str, extra_props: &str) -> String {
    format!(
        "<response><href>{}</href><propstat><status>HTTP/1.1 200 OK</status><prop>\
         <getetag>\"42\"</getetag><displayname>Chores</displayname>\
         <resourcetype><calendar /></resourcetype>\
         <supported-calendar-component-set><comp name=\"VEVENT\" /><comp name=\"VTODO\" /></supported-calendar-component-set>\
         {}</prop></propstat></response>",
        href, extra_props
    )
}

#[test]
fn discovery_requests_have_fixed_shape() {
    let p = principal_request();
    assert_eq!(p.method, Method::PropFind);
    assert_eq!(p.depth, 0);
    assert!(p.body.contains("current-user-principal"));
    let h = home_set_request();
    assert_eq!(h.method, Method::PropFind);
    assert_eq!(h.depth, 0);
    assert!(h.body.contains("calendar-home-set"));
    let l = calendar_list_request();
    assert_eq!(l.method, Method::PropFind);
    assert_eq!(l.depth, 1);
    assert!(l.body.contains("supported-calendar-component-set"));
    let q = task_query_request();
    assert_eq!(q.method, Method::Report);
    assert_eq!(q.depth, 1);
    assert!(q.body.contains("calendar-data"));
}

#[test]
fn principal_discovery_resolves_href() {
    let body = response(
        "<response><propstat><prop><current-user-principal><href>/principals/alice/</href></current-user-principal></prop></propstat></response>",
    );
    let url = principal_url_from_document(BASE, &body).unwrap();
    assert_eq!(url.as_str(), "https://cal.example.com/principals/alice/");
}

#[test]
fn principal_discovery_fails_without_property() {
    let body = response("<response><propstat><prop></prop></propstat></response>");
    let err = principal_url_from_document(BASE, &body).unwrap_err();
    assert_eq!(err.kind(), ErrorKind::Protocol);
}

#[test]
fn home_set_discovery_resolves_href() {
    let body = response(
        "<response><propstat><prop><calendar-home-set><href>/calendars/alice/</href></calendar-home-set></prop></propstat></response>",
    );
    let url = home_set_url_from_document("https://cal.example.com/principals/alice/", &body)
        .unwrap();
    assert_eq!(url.as_str(), "https://cal.example.com/calendars/alice/");
}

#[test]
fn home_set_discovery_reads_the_property_not_the_entry_href() {
    // the response's own href names the principal resource itself; the
    // home set is the calendar-home-set property's href
    let body = response(
        "<response><href>/principals/alice/</href><propstat><prop>\
         <calendar-home-set><href>/calendars/alice/</href></calendar-home-set>\
         </prop></propstat></response>",
    );
    let url = home_set_url_from_document("https://cal.example.com/principals/alice/", &body)
        .unwrap();
    assert_eq!(url.as_str(), "https://cal.example.com/calendars/alice/");
}

#[test]
fn home_set_discovery_fails_without_property() {
    let body = response(
        "<response><href>/principals/alice/</href><propstat><prop /></propstat></response>",
    );
    let err = home_set_url_from_document("https://cal.example.com/principals/alice/", &body)
        .unwrap_err();
    assert_eq!(err.kind(), ErrorKind::Protocol);
}

#[test]
fn calendar_listing_returns_task_calendars() {
    let body = response(&calendar_entry("/calendars/alice/chores/", ""));
    let cals = calendars_from_document(BASE, &body).unwrap();
    assert_eq!(cals.len(), 1);
    let Calendar { url, etag, name } = &cals[0];
    assert_eq!(url.as_str(), "https://cal.example.com/calendars/alice/chores/");
    assert_eq!(etag.as_str(), "42");
    assert_eq!(name.as_str(), "Chores");
}

#[test]
fn not_found_container_is_filtered() {
    // the home-set container itself answers 404; that is filtered, not an error
    let inner = format!(
        "<response><href>/calendars/alice/</href><propstat><status>HTTP/1.1 404 Not Found</status><prop /></propstat></response>{}",
        calendar_entry("/calendars/alice/chores/", "")
    );
    let cals = calendars_from_document(BASE, &response(&inner)).unwrap();
    assert_eq!(cals.len(), 1);
    assert_eq!(cals[0].name.as_str(), "Chores");
}

#[test]
fn other_statuses_are_errors() {
    let inner = "<response><href>/x/</href><propstat><status>HTTP/1.1 403 Forbidden</status><prop /></propstat></response>";
    let err = calendars_from_document(BASE, &response(inner)).unwrap_err();
    assert_eq!(err.kind(), ErrorKind::Protocol);
}

#[test]
fn non_calendar_resources_are_filtered() {
    let inner = "<response><href>/addressbook/</href><propstat><status>HTTP/1.1 200 OK</status><prop>\
                 <getetag>\"7\"</getetag><displayname>Contacts</displayname>\
                 <resourcetype><addressbook /></resourcetype></prop></propstat></response>";
    let cals = calendars_from_document(BASE, &response(inner)).unwrap();
    assert_eq!(cals.len(), 0);
}

#[test]
fn calendars_without_task_support_are_filtered() {
    let inner = "<response><href>/events/</href><propstat><status>HTTP/1.1 200 OK</status><prop>\
                 <getetag>\"7\"</getetag><displayname>Events</displayname>\
                 <resourcetype><calendar /></resourcetype>\
                 <supported-calendar-component-set><comp name=\"VEVENT\" /></supported-calendar-component-set>\
                 </prop></propstat></response>";
    let cals = calendars_from_document(BASE, &response(inner)).unwrap();
    assert_eq!(cals.len(), 0);
}

#[test]
fn missing_change_token_is_an_error() {
    let inner = "<response><href>/c/</href><propstat><status>HTTP/1.1 200 OK</status><prop>\
                 <displayname>C</displayname><resourcetype><calendar /></resourcetype>\
                 </prop></propstat></response>";
    let err = calendars_from_document(BASE, &response(inner)).unwrap_err();
    assert_eq!(err.kind(), ErrorKind::Protocol);
}

#[test]
fn missing_display_name_is_an_error() {
    let inner = "<response><href>/c/</href><propstat><status>HTTP/1.1 200 OK</status><prop>\
                 <getetag>\"7\"</getetag><resourcetype><calendar /></resourcetype>\
                 </prop></propstat></response>";
    let err = calendars_from_document(BASE, &response(inner)).unwrap_err();
    assert_eq!(err.kind(), ErrorKind::Protocol);
}

#[test]
fn malformed_xml_is_a_document_error() {
    let err = calendars_from_document(BASE, "<multistatus").unwrap_err();
    assert_eq!(err.kind(), ErrorKind::DocumentParse);
}

#[test]
fn task_query_yields_collections() {
    let doc = "BEGIN:VCALENDAR\nVERSION:2.0\nPRODID:x\nBEGIN:VTODO\nSUMMARY:Buy milk\nEND:VTODO\nEND:VCALENDAR";
    let inner = format!(
        "<response><href>/calendars/alice/chores/1.ics</href><propstat><prop>\
         <getetag>\"v9\"</getetag><calendar-data>{}</calendar-data></prop></propstat></response>",
        doc
    );
    let cols = collections_from_document(
        "https://cal.example.com/calendars/alice/chores/",
        &response(&inner),
    )
    .unwrap();
    assert_eq!(cols.len(), 1);
    assert_eq!(
        cols[0].url.as_str(),
        "https://cal.example.com/calendars/alice/chores/1.ics"
    );
    assert_eq!(cols[0].etag.as_deref(), Some("v9"));
    assert_eq!(cols[0].index, 0);
    assert_eq!(cols[0].tasks().len(), 1);
    assert_eq!(cols[0].tasks()[0].summary().as_str(), "Buy milk");
}

#[test]
fn absent_calendar_data_yields_empty_collection() {
    let inner = "<response><href>/calendars/alice/chores/2.ics</href><propstat><prop>\
                 <getetag>\"v3\"</getetag></prop></propstat></response>";
    let cols = collections_from_document(
        "https://cal.example.com/calendars/alice/chores/",
        &response(inner),
    )
    .unwrap();
    assert_eq!(cols.len(), 1);
    assert_eq!(cols[0].tasks().len(), 0);
    assert_eq!(cols[0].etag.as_deref(), Some("v3"));
}

#[test]
fn join_url_resolves_references() {
    assert_eq!(
        join_url("https://example.com/a/b/", "../c").unwrap().as_str(),
        "https://example.com/a/c"
    );
    assert_eq!(
        join_url("https://example.com/a/", "https://other.example.com/z")
            .unwrap()
            .as_str(),
        "https://other.example.com/z"
    );
    let err = join_url("not a url", "x").unwrap_err();
    assert_eq!(err.kind(), ErrorKind::Url);
}

#[test]
fn apply_xml_path_walks_first_children() {
    let leaf = XmlElement {
        name: String::from("href"),
        name_attr: None,
        text: String::from("/p/"),
        children: Vec::new(),
    };
    let mid = XmlElement {
        name: String::from("response"),
        name_attr: None,
        text: String::new(),
        children: vec![leaf],
    };
    let root = XmlElement {
        name: String::from("multistatus"),
        name_attr: None,
        text: String::new(),
        children: vec![mid],
    };
    let path = vec!["response", "href"];
    assert_eq!(apply_xml_path(&root, &path).unwrap().as_str(), "/p/");
    let missing = vec!["response", "prop"];
    assert!(apply_xml_path(&root, &missing).is_err());
}
