use knowledge_base::pdf::extract_pdf_literal_strings;
use knowledge_base::pdf::extract_readable_runs;
use knowledge_base::pdf::is_readable_character;
use knowledge_base::pdf::pdf_text_of;
use knowledge_base::sheet::cell_column_index;
use knowledge_base::sheet::column_letters_to_index;
use knowledge_base::sheet::join_limited;
use knowledge_base::sheet::non_empty_values;
use knowledge_base::sheet::parse_shared_strings;
use knowledge_base::sheet::row_sample;
use knowledge_base::sheet::worksheet_cell_value;
use knowledge_base::sheet::worksheet_row_summary;
use knowledge_base::sheet::worksheet_sort_key;
use knowledge_base::sheet::worksheet_table_insight;
use knowledge_base::xml::first_xml_tag_text;
use knowledge_base::xml::tag_attribute;
use knowledge_base::xml::unescape_xml;
use knowledge_base::xml::xml_attribute;
use knowledge_base::xml::xml_start_tags;
use knowledge_base::xml::xml_tag_local_name;
use knowledge_base::xml::xml_to_text;

fn chars(value: &str) -> Vec<char> {
    value.chars().collect()
}

fn text(value: Vec<char>) -> String {
    value.into_iter().collect()
}

fn strings(values: &[&str]) -> Vec<String> {
    values.iter().map(|value| value.to_string()).collect()
}

#[test]
fn xml_text_drops_tags_and_unescapes() {
    assert_eq!(xml_to_text("<w:t>Redis</w:t><w:t>&amp; 缓存</w:t>"), "Redis & 缓存");
    assert_eq!(unescape_xml("&lt;a&gt; &quot;x&quot; &apos;y&apos;"), "<a> \"x\" 'y'");
    assert_eq!(unescape_xml("&amp;lt;"), "&lt;");
    assert_eq!(first_xml_tag_text("<c r=\"A1\"><v>12</v></c>", "v"), Some("12".to_string()));
    assert_eq!(first_xml_tag_text("<c r=\"A1\"></c>", "v"), None);
    assert_eq!(xml_attribute("<c r=\"B2\" t=\"s\">", "t"), Some("s".to_string()));
    assert_eq!(xml_attribute("<c r=\"B2\">", "t"), None);
}

#[test]
fn start_tags_are_found_by_local_name() {
    let rels = r#"<Relationships><Relationship Id="rId5" Target="media/image1.png"/><pkg:Relationship Id="rId6" Target="a&amp;b.png"/></Relationships>"#;
    let tags = xml_start_tags(rels, "Relationship");
    assert_eq!(tags.len(), 2);
    assert_eq!(tag_attribute(&tags[0], "Target"), Some("media/image1.png".to_string()));
    assert_eq!(tag_attribute(&tags[1], "Target"), Some("a&b.png".to_string()));
    assert_eq!(tag_attribute(&tags[1], "Type"), None);

    assert_eq!(xml_tag_local_name(&chars("<a:blip r:embed=\"rId5\"/>")).map(text), Some("blip".to_string()));
    assert_eq!(xml_tag_local_name(&chars("<Relationship>")).map(text), Some("Relationship".to_string()));
    assert_eq!(xml_tag_local_name(&chars("</a:blip>")), None);
    assert_eq!(xml_tag_local_name(&chars("<?xml version=\"1.0\"?>")), None);
}

#[test]
fn column_letters_count_from_zero() {
    assert_eq!(column_letters_to_index(&chars("A")), Some(0));
    assert_eq!(column_letters_to_index(&chars("Z")), Some(25));
    assert_eq!(column_letters_to_index(&chars("AA")), Some(26));
    assert_eq!(column_letters_to_index(&chars("ab")), Some(27));
    assert_eq!(column_letters_to_index(&chars("A1")), None);
    assert_eq!(column_letters_to_index(&[]), None);
    assert_eq!(cell_column_index("<c r=\"C3\"><v>1</v></c>"), Some(2));
    assert_eq!(cell_column_index("<c><v>1</v></c>"), None);
}

#[test]
fn cell_values_follow_their_type() {
    let shared = strings(&["", "月份"]);
    assert_eq!(worksheet_cell_value("<c r=\"A1\" t=\"s\"><v>1</v></c>", &shared), Some("月份".to_string()));
    assert_eq!(worksheet_cell_value("<c r=\"A1\" t=\"s\"><v>0</v></c>", &shared), None);
    assert_eq!(worksheet_cell_value("<c r=\"A1\" t=\"s\"><v>7</v></c>", &shared), None);
    assert_eq!(
        worksheet_cell_value("<c r=\"B1\" t=\"inlineStr\"><is><t>直接</t></is></c>", &shared),
        Some("直接".to_string())
    );
    assert_eq!(worksheet_cell_value("<c r=\"C1\"><v> 120 </v></c>", &shared), Some("120".to_string()));
}

#[test]
fn rows_count_the_columns_they_span() {
    let shared = strings(&["", "月份"]);
    let row = chars("<row><c r=\"B2\" t=\"s\"><v>1</v></c><c><v>5</v></c><c r=\"E2\"></c></row>");
    let summary = worksheet_row_summary(&row, &shared);
    assert_eq!(summary.values, strings(&["月份", "5"]));
    assert_eq!(summary.column_count, 3);
}

#[test]
fn shared_strings_and_sheet_order() {
    assert_eq!(
        parse_shared_strings("<sst><si><t>a</t></si><si><r><t>b</t></r><r><t>c</t></r></si></sst>"),
        strings(&["a", "b c"])
    );
    assert_eq!(worksheet_sort_key("xl/worksheets/sheet12.xml"), 12);
    assert_eq!(worksheet_sort_key("xl/worksheets/other.xml"), usize::MAX);
}

#[test]
fn value_lists_are_cut_with_a_count_of_the_rest() {
    assert_eq!(join_limited(&strings(&["a", "b", "c"]), "、", 2), "a、b、另有 1 项");
    assert_eq!(join_limited(&strings(&["a", "b"]), "、", 2), "a、b");
    assert_eq!(non_empty_values(&strings(&[" a ", " ", "b"])), strings(&["a", "b"]));
    assert_eq!(row_sample(&strings(&[" x ", "", "y"])), "x | y");
}

#[test]
fn worksheet_insights_summarise_rows_and_header() {
    let shared = strings(&["", "月份", "营收"]);
    let xml = r#"<sheetData><row><c r="A1" t="s"><v>1</v></c><c r="B1" t="s"><v>2</v></c></row><row><c r="A2"><v>6</v></c><c r="B2"><v>120</v></c></row><row></row></sheetData>"#;
    let insight = worksheet_table_insight("报表\\经营.xlsx", 2, xml, &shared).expect("insight");
    assert_eq!(insight.title, "经营.xlsx · 工作表 2");
    assert_eq!(insight.source_locator, "报表\\经营.xlsx#sheet-002");
    assert_eq!(insight.summary, "工作表 2：2 行、2 列；表头：月份、营收");
    assert_eq!(
        insight.body,
        "经营.xlsx · 工作表 2\n来源：报表\\经营.xlsx#sheet-002\n结构：2 行，2 列\n表头：月份、营收\n样例 1：6 | 120\n可问答字段：月份、营收"
    );
    assert!(worksheet_table_insight("a.xlsx", 1, "<row></row>", &shared).is_none());
}

#[test]
fn pdf_text_prefers_literal_strings() {
    assert_eq!(text(extract_pdf_literal_strings(&chars("BT (Hello) Tj (a) (x\\)y) ET"))), "Hello\nx)y");
    assert_eq!(text(extract_readable_runs(&chars("abc\u{1}Hello World\u{2}zz"))), "Hello World");
    assert!(is_readable_character('a'));
    assert!(is_readable_character('。'));
    assert!(is_readable_character('缓'));
    assert!(!is_readable_character('€'));
    assert_eq!(text(pdf_text_of(&chars("(缓存穿透 需要参数校验)"))), "缓存穿透 需要参数校验");
    assert_eq!(text(pdf_text_of(&chars("(ab)\u{1}plain readable text"))), "plain readable text");
}
