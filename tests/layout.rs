use tachimi::layout::{
    numbered_output_path, single_page_size, spread_geometry, spread_page, spread_plan, unique_output_path, PageSource,
    SpreadGeometry, SpreadPage, SpreadPair,
};

#[test]
fn three_files_with_title_page() {
    let plan = spread_plan(3, true);
    assert_eq!(
        plan,
        vec![
            SpreadPair { right: PageSource::Blank, left: Some(0), right_number: None, left_number: 1 },
            SpreadPair { right: PageSource::File(1), left: Some(2), right_number: Some(2), left_number: 3 },
        ]
    );
}

#[test]
fn spreads_without_title_page() {
    let plan = spread_plan(3, false);
    assert_eq!(plan.len(), 2);
    assert_eq!(plan[0], SpreadPair { right: PageSource::File(0), left: Some(1), right_number: Some(1), left_number: 2 });
    assert_eq!(plan[1].right, PageSource::File(2));
    assert_eq!(plan[1].left, None);
    assert_eq!(spread_plan(0, false).len(), 0);
    assert_eq!(spread_plan(4, true).len(), 3);
}

#[test]
fn spread_page_geometry() {
    assert_eq!(
        spread_geometry(100, 200, Some((120, 180)), 10, 5),
        SpreadGeometry { page_width: 240, page_height: 210, right_x: 135, left_x: 5, y: 5 }
    );
    assert_eq!(
        spread_geometry(100, 200, None, 10, 5),
        SpreadGeometry { page_width: 120, page_height: 210, right_x: 15, left_x: 5, y: 5 }
    );
    assert_eq!(single_page_size(100, 200, 7), (114, 214));
}

#[test]
fn output_path_collisions() {
    let taken = vec!["out/doc.pdf".to_string(), "out/doc(1).pdf".to_string()];
    assert_eq!(unique_output_path("out/doc.pdf", &taken), Some("out/doc(2).pdf".to_string()));
    assert_eq!(unique_output_path("out/new.pdf", &taken), Some("out/new.pdf".to_string()));
    assert_eq!(numbered_output_path("noext", 3), "noext(3).");
    assert_eq!(numbered_output_path("a.b/c.pdf", 12), "a.b/c(12).pdf");
}

#[test]
fn failed_pages_in_a_spread() {
    let plan = spread_plan(3, false);
    assert_eq!(spread_page(&plan[0], None, Some((10, 10)), 2, 1), None);
    let page = spread_page(&plan[0], Some((10, 20)), None, 2, 1).unwrap();
    assert_eq!(page.left_number, None);
    assert_eq!(page.right_number, Some(1));
    assert_eq!(page.geometry.page_width, 14);
    assert_eq!(
        spread_page(&plan[0], Some((10, 20)), Some((12, 30)), 2, 1),
        Some(SpreadPage {
            geometry: SpreadGeometry { page_width: 26, page_height: 32, right_x: 15, left_x: 1, y: 1 },
            right_number: Some(1),
            left_number: Some(2),
        })
    );
    // no left slot: a left size is ignored
    let page = spread_page(&plan[1], Some((10, 20)), Some((12, 30)), 2, 1).unwrap();
    assert_eq!(page.left_number, None);
    assert_eq!(page.geometry.page_height, 22);
}
