use platformer::level::{Cell, Level};
use platformer::loader::{load_map, load_tmx, tiles_from_nodes, XmlNode};
use platformer::tiles::MapError;

const SMALL_MAP: &str = "<?xml version=\"1.0\" encoding=\"UTF-8\"?>\n\
<map version=\"1.2\" orientation=\"orthogonal\" width=\"3\" height=\"2\">\n\
 <tileset firstgid=\"1\" source=\"bricks.tsx\"/>\n\
 <layer id=\"1\" name=\"ground\" width=\"3\" height=\"2\">\n\
  <data encoding=\"csv\">\n\
0,0,1,\n\
1,12,0\n\
</data>\n\
 </layer>\n\
</map>\n";

fn node(tag: &str, text: Option<&str>) -> XmlNode {
    XmlNode { tag: tag.to_string(), text: text.map(|t| t.to_string()) }
}

#[test]
fn load_tmx_reads_the_data_of_a_map() {
    assert_eq!(load_tmx(SMALL_MAP), Ok(vec![0, 0, 1, 1, 3, 0, 3]));
}

#[test]
fn load_map_places_the_solid_tiles() {
    assert_eq!(
        load_map(SMALL_MAP),
        Ok(Level {
            columns: 3,
            rows: 2,
            solids: vec![
                Cell { col: 2, row: 0 },
                Cell { col: 0, row: 1 },
                Cell { col: 1, row: 1 },
            ],
        })
    );
}

#[test]
fn load_tmx_refuses_text_that_is_no_xml() {
    assert_eq!(load_tmx("0,1,\n1,0\n"), Err(MapError::InvalidXml));
    assert_eq!(load_tmx("<map><data>1,2</map>"), Err(MapError::InvalidXml));
    assert_eq!(load_tmx(""), Err(MapError::InvalidXml));
}

#[test]
fn load_tmx_refuses_a_document_without_map() {
    assert_eq!(load_tmx("<level><data>1,2,\n3,4\n</data></level>"), Err(MapError::NotAMap));
}

#[test]
fn load_tmx_refuses_data_without_text() {
    assert_eq!(load_tmx("<map><data/></map>"), Err(MapError::EmptyData));
    assert_eq!(load_tmx("<map><data><tile/></data></map>"), Err(MapError::EmptyData));
}

#[test]
fn load_tmx_empty_data_comes_before_missing_map() {
    assert_eq!(load_tmx("<level><data/></level>"), Err(MapError::EmptyData));
}

#[test]
fn load_tmx_missing_map_comes_before_bad_bytes() {
    assert_eq!(load_tmx("<level><data>x</data></level>"), Err(MapError::NotAMap));
    assert_eq!(load_tmx("<map><data>x</data></map>"), Err(MapError::NotANumber { byte: 120 }));
}

#[test]
fn load_tmx_map_without_data_has_empty_data() {
    assert_eq!(load_tmx("<map/>"), Ok(vec![0, 0]));
    assert_eq!(load_map("<map/>"), Err(MapError::ZeroWidth));
}

#[test]
fn load_tmx_last_data_element_counts() {
    let text = "<map><layer><data>1,\n1\n</data></layer>\
<layer><data>2,2,\n2,2\n</data></layer></map>";
    assert_eq!(load_tmx(text), Ok(vec![2, 2, 2, 2, 2]));
}

#[test]
fn load_tmx_map_may_stand_anywhere_in_the_document() {
    assert_eq!(load_tmx("<world><data>5,\n6\n</data><map/></world>"), Ok(vec![5, 6, 1]));
}

#[test]
fn load_tmx_tag_names_are_compared_without_namespace_prefix() {
    let text = "<t:map xmlns:t=\"http://example.org/t\"><t:data>3,\n4\n</t:data></t:map>";
    assert_eq!(load_tmx(text), Ok(vec![3, 4, 1]));
}

#[test]
fn load_tmx_text_of_a_first_child_element_is_read() {
    // The first child of `data` is an element: its own first text counts.
    assert_eq!(load_tmx("<map><data><chunk>8,\n9\n</chunk></data></map>"), Ok(vec![8, 9, 1]));
}

#[test]
fn load_tmx_refuses_bytes_outside_ascii() {
    assert_eq!(
        load_tmx("<map><data>1,\u{e9}</data></map>"),
        Err(MapError::NotANumber { byte: 0xc3 })
    );
}

#[test]
fn load_map_refuses_a_ragged_grid() {
    assert_eq!(load_map("<map><data>1,1,\n1\n</data></map>"), Err(MapError::NotRectangular));
}

#[test]
fn tiles_from_nodes_finds_the_data() {
    let nodes = vec![
        node("", None),
        node("map", None),
        node("layer", None),
        node("data", Some("\n1,0,\n0,1\n")),
        node("", Some("\n1,0,\n0,1\n")),
    ];
    assert_eq!(tiles_from_nodes(&nodes), Ok(vec![1, 0, 0, 1, 2]));
}

#[test]
fn tiles_from_nodes_without_nodes_is_no_map() {
    assert_eq!(tiles_from_nodes(&vec![]), Err(MapError::NotAMap));
}

#[test]
fn tiles_from_nodes_refuses_data_without_text_even_after_good_data() {
    let nodes = vec![node("map", None), node("data", Some("1")), node("data", None)];
    assert_eq!(tiles_from_nodes(&nodes), Err(MapError::EmptyData));
}

#[test]
fn tiles_from_nodes_ignores_text_of_other_elements() {
    let nodes = vec![node("map", Some("9,9")), node("layer", Some("7"))];
    assert_eq!(tiles_from_nodes(&nodes), Ok(vec![0, 0]));
}
