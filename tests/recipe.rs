use ingredient::recipe::{
    split_lines, GraphNode, HowToSection, HowToStep, ImageObject, ImageOrList, InstructionWrapper,
    LdGraph, Root, RootRecipe, SectionItem,
};
use ingredient::{extract_ld, normalize_ld_json, scrape_extracted, scrape_from_html, scrape_from_json, ScrapeError};

fn step(t: &str) -> HowToStep {
    HowToStep { text: t.to_string() }
}

fn recipe(instructions: InstructionWrapper, image: Option<ImageOrList>) -> RootRecipe {
    RootRecipe {
        context: Some("https://schema.org".to_string()),
        name: "Naan".to_string(),
        image,
        recipe_ingredient: vec!["2 cups flour".to_string(), "1 egg".to_string()],
        recipe_instructions: instructions,
    }
}

#[test]
fn recipe_with_step_list() {
    let r = recipe(InstructionWrapper::A(vec![step("Mix."), step("Bake.")]), None);
    let s = normalize_ld_json(Root::Recipe(r), "https://example.com/naan").unwrap();
    assert_eq!(s.ingredients, vec!["2 cups flour", "1 egg"]);
    assert_eq!(s.instructions, vec!["Mix.", "Bake."]);
    assert_eq!(s.name, "Naan");
    assert_eq!(s.url, "https://example.com/naan");
    assert_eq!(s.image, None);
}

#[test]
fn recipe_with_sections_takes_last() {
    let sections = vec![
        HowToSection { item_list_element: vec![SectionItem { text: Some("first".to_string()) }] },
        HowToSection {
            item_list_element: vec![
                SectionItem { text: Some("a".to_string()) },
                SectionItem { text: Some("b".to_string()) },
            ],
        },
    ];
    let s = normalize_ld_json(Root::Recipe(recipe(InstructionWrapper::B(sections), None)), "u").unwrap();
    assert_eq!(s.instructions, vec!["a", "b"]);
}

#[test]
fn recipe_with_section_item_without_text() {
    let sections = vec![HowToSection { item_list_element: vec![SectionItem { text: None }] }];
    let r = normalize_ld_json(Root::Recipe(recipe(InstructionWrapper::B(sections), None)), "u");
    assert!(matches!(r, Err(ScrapeError::Parse(_))));
    let r = normalize_ld_json(Root::Recipe(recipe(InstructionWrapper::B(vec![]), None)), "u");
    assert!(matches!(r, Err(ScrapeError::Parse(_))));
    let r = normalize_ld_json(Root::Recipe(recipe(InstructionWrapper::D(vec![]), None)), "u");
    assert!(matches!(r, Err(ScrapeError::Parse(_))));
}

#[test]
fn recipe_with_html_paragraphs() {
    let html = "<p>Mix the <b>water</b>.</p>\n, <p>Rest.</p>".to_string();
    let s = normalize_ld_json(Root::Recipe(recipe(InstructionWrapper::C(html), None)), "u").unwrap();
    assert_eq!(s.instructions, vec!["Mix the water.", "Rest."]);
}

#[test]
fn recipe_with_nested_step_lists() {
    let lists = vec![vec![step("one")], vec![step("two")]];
    let s = normalize_ld_json(Root::Recipe(recipe(InstructionWrapper::D(lists), None)), "u").unwrap();
    assert_eq!(s.instructions, vec!["one"]);
}

#[test]
fn recipe_images() {
    let img = |i| normalize_ld_json(Root::Recipe(recipe(InstructionWrapper::A(vec![]), Some(i))), "u").unwrap().image;
    assert_eq!(img(ImageOrList::URL("a.jpg".to_string())), Some("a.jpg".to_string()));
    assert_eq!(
        img(ImageOrList::List(vec![ImageObject { url: "b.jpg".to_string() }, ImageObject { url: "c.jpg".to_string() }])),
        Some("b.jpg".to_string())
    );
    assert_eq!(img(ImageOrList::URLList(vec!["d.jpg".to_string()])), Some("d.jpg".to_string()));
    assert_eq!(img(ImageOrList::URLList(vec![])), None);
    assert_eq!(img(ImageOrList::Image(ImageObject { url: "e.jpg".to_string() })), Some("e.jpg".to_string()));
}

#[test]
fn graph_takes_first_recipe() {
    let g = Root::Graph(LdGraph {
        graph: vec![
            GraphNode::Other,
            GraphNode::Recipe(recipe(InstructionWrapper::A(vec![step("x")]), None)),
            GraphNode::Recipe(recipe(InstructionWrapper::A(vec![step("y")]), None)),
        ],
    });
    assert_eq!(normalize_ld_json(g, "u").unwrap().instructions, vec!["x"]);
}

#[test]
fn graph_without_recipe() {
    let g = Root::Graph(LdGraph { graph: vec![GraphNode::Other] });
    match normalize_ld_json(g, "u") {
        Err(ScrapeError::LDJSONMissingRecipe(m)) => assert_eq!(m, "failed to find recipe in ld json"),
        other => panic!("unexpected {:?}", other),
    }
}

#[test]
fn decoding_failure_is_reported() {
    match scrape_from_json(Err("expected value at line 1".to_string()), "u") {
        Err(ScrapeError::Deserialize(m)) => assert_eq!(m, "expected value at line 1"),
        other => panic!("unexpected {:?}", other),
    }
    let ok = scrape_from_json(Ok(Root::Recipe(recipe(InstructionWrapper::A(vec![]), None))), "u").unwrap();
    assert_eq!(ok.ingredients.len(), 2);
}

#[test]
fn structured_data_block_found() {
    let page = "<html><head><script type='application/ld+json'>{\"a\": 1}</script></head><body></body></html>";
    assert_eq!(extract_ld(page).unwrap(), "{\"a\": 1}");
}

#[test]
fn missing_structured_data_quotes_page() {
    let page = "<html><head><title>Pad thai with crispy tofu</title></head><body></body></html>";
    match extract_ld(page) {
        Err(ScrapeError::NoLDJSON(m)) => {
            assert_eq!(m, "<html><head><title>Pad thai with crispy ");
            assert_eq!(m.chars().count(), 40);
        }
        other => panic!("unexpected {:?}", other),
    }
}

#[test]
fn markup_fallback() {
    let page = "<html><body><ul><li class='jetpack-recipe-ingredient'>1 cup rice</li>\
                <li class='jetpack-recipe-ingredient'>2 eggs</li></ul>\
                <div class='jetpack-recipe-directions'>Soak.\nFry.</div></body></html>";
    let r = scrape_from_html(page).unwrap();
    assert_eq!(r.ingredients, vec!["1 cup rice", "2 eggs"]);
    assert_eq!(r.instructions, vec!["Soak.", "Fry."]);
    assert_eq!(r.name, "");
    assert_eq!(r.image, None);
}

#[test]
fn markup_fallback_without_directions() {
    match scrape_from_html("<html><body><p>nothing</p></body></html>") {
        Err(ScrapeError::Parse(m)) => assert_eq!(m, "no ld json or parsed html"),
        other => panic!("unexpected {:?}", other),
    }
}

#[test]
fn lines_split_at_line_feeds() {
    assert_eq!(split_lines("a\nb"), vec!["a", "b"]);
    assert_eq!(split_lines(""), vec![""]);
    assert_eq!(split_lines("a\n"), vec!["a", ""]);
    assert_eq!(split_lines("\n\nx"), vec!["", "", "x"]);
}

#[test]
fn extracted_outcomes() {
    let page = "<html><body><div class='jetpack-recipe-directions'>Stir.</div></body></html>";
    let r = scrape_extracted(page, "u", Err(ScrapeError::NoLDJSON("<html>".to_string()))).unwrap();
    assert_eq!(r.instructions, vec!["Stir."]);
    match scrape_extracted(page, "u", Err(ScrapeError::Http("timeout".to_string()))) {
        Err(ScrapeError::Http(m)) => assert_eq!(m, "timeout"),
        other => panic!("unexpected {:?}", other),
    }
    match scrape_extracted(page, "u", Ok(Err("bad json".to_string()))) {
        Err(ScrapeError::Deserialize(m)) => assert_eq!(m, "bad json"),
        other => panic!("unexpected {:?}", other),
    }
    let r = scrape_extracted(page, "u", Ok(Ok(Root::Recipe(recipe(InstructionWrapper::A(vec![step("Go.")]), None)))));
    assert_eq!(r.unwrap().instructions, vec!["Go."]);
}

#[test]
fn empty_instructions_message() {
    match normalize_ld_json(Root::Recipe(recipe(InstructionWrapper::D(vec![]), None)), "u") {
        Err(ScrapeError::Parse(m)) => assert_eq!(m, "recipe instructions hold no steps"),
        other => panic!("unexpected {:?}", other),
    }
}

#[test]
fn missing_structured_data_quote_is_short() {
    let page = "<html lang='en' class='no-js'><head><title>A rather long title for a page</title></head></html>";
    match extract_ld(page) {
        Err(ScrapeError::NoLDJSON(m)) => assert!(m.chars().count() <= 40 && m.starts_with("<html")),
        other => panic!("unexpected {:?}", other),
    }
}

#[test]
fn structured_data_block_is_first_script_text() {
    let page = "<html lang='en' class='no-js'><head>\
                <script type='application/ld+json'>{\"@type\": \"Recipe\", \"x\": \"a < b\"}</script>\
                <script type='application/ld+json'>{\"second\": true}</script></head></html>";
    assert_eq!(extract_ld(page).unwrap(), "{\"@type\": \"Recipe\", \"x\": \"a < b\"}");
}
