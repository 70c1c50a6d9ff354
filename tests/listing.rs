use notion_opendal::{ErrorKind, NotionLister, PaginatedLister, PAGE_SIZE};

/// A collection of `n` records served in pages of `PAGE_SIZE`, with the
/// number of pages requested so far.
struct Collection {
    ids: Vec<String>,
    requests: usize,
}

impl Collection {
    fn new(n: usize) -> Self {
        Collection { ids: (0..n).map(|i| format!("id{i}")).collect(), requests: 0 }
    }

    fn query(&mut self, cursor: Option<String>) -> (Vec<String>, Option<String>) {
        self.requests += 1;
        let start: usize = cursor.map(|c| c.parse().unwrap()).unwrap_or(0);
        let end = (start + PAGE_SIZE as usize).min(self.ids.len());
        let next = if end < self.ids.len() { Some(end.to_string()) } else { None };
        (self.ids[start..end].to_vec(), next)
    }
}

fn drive(lister: &mut PaginatedLister, c: &mut Collection) {
    while !lister.is_finished() {
        let (page, next) = c.query(lister.next_cursor());
        lister.accept_page(page, next);
    }
}

#[test]
fn all_mode_returns_every_id_in_order() {
    let mut c = Collection::new(250);
    let mut l = PaginatedLister::all();
    drive(&mut l, &mut c);
    assert_eq!(c.requests, 3);
    assert_eq!(l.visited(), 250);
    let ids = l.into_ids();
    assert_eq!(ids.len(), 250);
    assert_eq!(ids, c.ids);
    let mut sorted = ids.clone();
    sorted.sort();
    sorted.dedup();
    assert_eq!(sorted.len(), 250);
}

#[test]
fn window_past_the_end_is_cut_short() {
    let mut c = Collection::new(250);
    let mut l = PaginatedLister::window(240, 20).unwrap();
    drive(&mut l, &mut c);
    assert_eq!(l.visited(), 250);
    let expected: Vec<String> = (240..250).map(|i| format!("id{i}")).collect();
    assert_eq!(l.ids(), &expected);
}

#[test]
fn full_window_stops_requesting_pages() {
    let mut c = Collection::new(250);
    let mut l = PaginatedLister::window(0, 5).unwrap();
    drive(&mut l, &mut c);
    assert_eq!(c.requests, 1);
    assert_eq!(l.visited(), 100);
    let expected: Vec<String> = (0..5).map(|i| format!("id{i}")).collect();
    assert_eq!(l.into_ids(), expected);
}

#[test]
fn window_spanning_pages() {
    let mut c = Collection::new(250);
    let mut l = PaginatedLister::window(95, 10).unwrap();
    drive(&mut l, &mut c);
    assert_eq!(c.requests, 2);
    assert_eq!(l.visited(), 200);
    let expected: Vec<String> = (95..105).map(|i| format!("id{i}")).collect();
    assert_eq!(l.into_ids(), expected);
}

#[test]
fn zero_limit_is_invalid_input() {
    assert_eq!(PaginatedLister::window(0, 0).err().unwrap().kind, ErrorKind::InvalidInput);
}

#[test]
fn empty_collection() {
    let mut c = Collection::new(0);
    let mut l = PaginatedLister::all();
    assert!(l.next_cursor().is_none());
    drive(&mut l, &mut c);
    assert_eq!(c.requests, 1);
    assert_eq!(l.visited(), 0);
    assert!(l.ids().is_empty());
}

#[test]
fn cursor_is_adopted() {
    let mut l = PaginatedLister::all();
    l.accept_page(vec!["a".to_string()], Some("next".to_string()));
    assert!(!l.is_finished());
    assert_eq!(l.next_cursor(), Some("next".to_string()));
    l.accept_page(vec!["b".to_string()], None);
    assert!(l.is_finished());
    assert_eq!(l.ids(), &vec!["a".to_string(), "b".to_string()]);
}

#[test]
fn lister_hands_out_markdown_names() {
    let mut l = NotionLister::new(vec!["alpha".to_string(), "beta".to_string()]);
    assert_eq!(l.next(), Some("alpha.md".to_string()));
    assert_eq!(l.next(), Some("beta.md".to_string()));
    assert_eq!(l.next(), None);
    assert_eq!(l.next(), None);
}
