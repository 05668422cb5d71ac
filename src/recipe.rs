use vstd::prelude::*;
use vstd::string::*;
use crate::grammar::{lemma_span_chars, span};

verus! {

/// Why a recipe could not be had from a page.
#[derive(Debug)]
pub enum ScrapeError {
    Http(String),
    NoLDJSON(String),
    LDJSONMissingRecipe(String),
    Deserialize(String),
    Parse(String),
}

/// A recipe as found on a page: its ingredient lines and instruction steps, in order.
#[derive(Debug)]
pub struct ScrapedRecipe {
    pub ingredients: Vec<String>,
    pub instructions: Vec<String>,
    pub name: String,
    pub url: String,
    pub image: Option<String>,
}

pub struct ScrapedRecipeView {
    pub ingredients: Seq<Seq<char>>,
    pub instructions: Seq<Seq<char>>,
    pub name: Seq<char>,
    pub url: Seq<char>,
    pub image: Option<Seq<char>>,
}

pub open spec fn strings_view(v: Seq<String>) -> Seq<Seq<char>> {
    v.map_values(|t: String| t@)
}

impl View for ScrapedRecipe {
    type V = ScrapedRecipeView;

    open spec fn view(&self) -> ScrapedRecipeView {
        ScrapedRecipeView {
            ingredients: strings_view(self.ingredients@),
            instructions: strings_view(self.instructions@),
            name: self.name@,
            url: self.url@,
            image: match self.image {
                Some(i) => Some(i@),
                None => None,
            },
        }
    }
}

/// The root of a page's structured recipe data: a recipe, or a graph of nodes among
/// which a recipe may stand.
pub enum Root {
    Recipe(RootRecipe),
    Graph(LdGraph),
}

pub struct LdGraph {
    pub graph: Vec<GraphNode>,
}

pub enum GraphNode {
    Recipe(RootRecipe),
    Other,
}

pub struct RootRecipe {
    pub context: Option<String>,
    pub name: String,
    pub image: Option<ImageOrList>,
    pub recipe_ingredient: Vec<String>,
    pub recipe_instructions: InstructionWrapper,
}

pub struct HowToStep {
    pub text: String,
}

pub struct SectionItem {
    pub text: Option<String>,
}

pub struct HowToSection {
    pub item_list_element: Vec<SectionItem>,
}

/// The forms in which pages give instructions: a list of steps; a list of sections, of
/// which the last holds the steps; one HTML text of paragraphs; a list of step lists, of
/// which the first holds the steps.
pub enum InstructionWrapper {
    A(Vec<HowToStep>),
    B(Vec<HowToSection>),
    C(String),
    D(Vec<Vec<HowToStep>>),
}

pub struct ImageObject {
    pub url: String,
}

pub enum ImageOrList {
    URL(String),
    List(Vec<ImageObject>),
    URLList(Vec<String>),
    Image(ImageObject),
}

/// The texts of the `<p>` elements of an HTML fragment, in the order in which the parser
/// inserted them.
pub uninterp spec fn paragraphs_of(html: Seq<char>) -> Seq<Seq<char>>;

/// Relies on scraper's `Html::parse_fragment`, `Selector::parse("p")`, `Html::select` and
/// `ElementRef::text`: the text of each `<p>` element of the fragment, in the order in which
/// the parser inserted them.
#[verifier::external_body]
fn paragraph_texts(html: &str) -> (r: Vec<String>)
    ensures
        strings_view(r@) == paragraphs_of(html@),
{
    let selector = scraper::Selector::parse("p").unwrap();
    scraper::Html::parse_fragment(html)
        .select(&selector)
        .map(|i| i.text().collect::<Vec<_>>().join(""))
        .collect()
}

pub open spec fn steps_view(v: Seq<HowToStep>) -> Seq<Seq<char>> {
    v.map_values(|s: HowToStep| s.text@)
}

/// The steps of a section, where every item has a text.
pub open spec fn section_steps(v: Seq<SectionItem>) -> Option<Seq<Seq<char>>> {
    if forall|i: int| 0 <= i < v.len() ==> (#[trigger] v[i]).text is Some {
        Some(v.map_values(|s: SectionItem| s.text->Some_0@))
    } else {
        None
    }
}

/// The instruction steps in each form; `None` where the form holds no steps to take
/// (no section, no step list, or a section item without text).
pub open spec fn instructions_of(w: InstructionWrapper) -> Option<Seq<Seq<char>>> {
    match w {
        InstructionWrapper::A(a) => Some(steps_view(a@)),
        InstructionWrapper::B(b) => if b@.len() == 0 {
            None
        } else {
            section_steps(b@.last().item_list_element@)
        },
        InstructionWrapper::C(c) => Some(paragraphs_of(c@)),
        InstructionWrapper::D(d) => if d@.len() == 0 {
            None
        } else {
            Some(steps_view(d@[0]@))
        },
    }
}

/// The recipe's image: the first of a list, or the only one.
pub open spec fn image_of(i: Option<ImageOrList>) -> Option<Seq<char>> {
    match i {
        Some(ImageOrList::URL(u)) => Some(u@),
        Some(ImageOrList::List(l)) => if l@.len() == 0 {
            None
        } else {
            Some(l@[0].url@)
        },
        Some(ImageOrList::URLList(l)) => if l@.len() == 0 {
            None
        } else {
            Some(l@[0]@)
        },
        Some(ImageOrList::Image(o)) => Some(o.url@),
        None => None,
    }
}

/// The recipe that a recipe node and its page's address make; `None` where its
/// instructions hold no steps.
pub open spec fn recipe_of(r: RootRecipe, url: Seq<char>) -> Option<ScrapedRecipeView> {
    match instructions_of(r.recipe_instructions) {
        Some(steps) => Some(
            ScrapedRecipeView {
                ingredients: strings_view(r.recipe_ingredient@),
                instructions: steps,
                name: r.name@,
                url,
                image: image_of(r.image),
            },
        ),
        None => None,
    }
}

/// The first recipe among the nodes of a graph.
pub open spec fn first_recipe(nodes: Seq<GraphNode>) -> Option<RootRecipe>
    decreases nodes.len(),
{
    if nodes.len() == 0 {
        None
    } else {
        match nodes[0] {
            GraphNode::Recipe(r) => Some(r),
            GraphNode::Other => first_recipe(nodes.drop_first()),
        }
    }
}

/// What normalizing a recipe node gives: the recipe, or a parse error.
pub open spec fn recipe_outcome(r: RootRecipe, url: Seq<char>, res: Result<ScrapedRecipe, ScrapeError>) -> bool {
    match recipe_of(r, url) {
        Some(v) => res matches Ok(x) && x@ == v,
        None => res matches Err(ScrapeError::Parse(m)) && m@ == "recipe instructions hold no steps"@,
    }
}

fn copy_strings(v: &Vec<String>) -> (r: Vec<String>)
    ensures
        strings_view(r@) == strings_view(v@),
{
    let mut r: Vec<String> = Vec::new();
    let mut i: usize = 0;
    while i < v.len()
        invariant
            i <= v@.len(),
            strings_view(r@) == strings_view(v@.take(i as int)),
        decreases v@.len() - i,
    {
        r.push(v[i].clone());
        proof {
            assert(strings_view(v@.take(i + 1)) =~= strings_view(v@.take(i as int)) + seq![v@[i as int]@]);
        }
        i = i + 1;
        proof {
            assert(strings_view(r@) =~= strings_view(v@.take(i as int)));
        }
    }
    proof {
        assert(v@.take(v@.len() as int) =~= v@);
    }
    r
}

fn step_texts(v: &Vec<HowToStep>) -> (r: Vec<String>)
    ensures
        strings_view(r@) == steps_view(v@),
{
    let mut r: Vec<String> = Vec::new();
    let mut i: usize = 0;
    while i < v.len()
        invariant
            i <= v@.len(),
            strings_view(r@) == steps_view(v@.take(i as int)),
        decreases v@.len() - i,
    {
        r.push(v[i].text.clone());
        proof {
            assert(steps_view(v@.take(i + 1)) =~= steps_view(v@.take(i as int)) + seq![v@[i as int].text@]);
        }
        i = i + 1;
        proof {
            assert(strings_view(r@) =~= steps_view(v@.take(i as int)));
        }
    }
    proof {
        assert(v@.take(v@.len() as int) =~= v@);
    }
    r
}

fn section_texts(v: &Vec<SectionItem>) -> (r: Option<Vec<String>>)
    ensures
        match r {
            Some(t) => section_steps(v@) == Some(strings_view(t@)),
            None => section_steps(v@) is None,
        },
{
    let mut r: Vec<String> = Vec::new();
    let mut i: usize = 0;
    while i < v.len()
        invariant
            i <= v@.len(),
            forall|j: int| 0 <= j < i ==> (#[trigger] v@[j]).text is Some,
            strings_view(r@) == v@.take(i as int).map_values(|s: SectionItem| s.text->Some_0@),
        decreases v@.len() - i,
    {
        match &v[i].text {
            Some(t) => {
                r.push(t.clone());
            },
            None => {
                return None;
            },
        }
        proof {
            assert(v@.take(i + 1).map_values(|s: SectionItem| s.text->Some_0@) =~= v@.take(
                i as int,
            ).map_values(|s: SectionItem| s.text->Some_0@) + seq![v@[i as int].text->Some_0@]);
        }
        i = i + 1;
        proof {
            assert(strings_view(r@) =~= v@.take(i as int).map_values(|s: SectionItem| s.text->Some_0@));
        }
    }
    proof {
        assert(v@.take(v@.len() as int) =~= v@);
    }
    Some(r)
}

fn instruction_texts(w: &InstructionWrapper) -> (r: Option<Vec<String>>)
    ensures
        match r {
            Some(t) => instructions_of(*w) == Some(strings_view(t@)),
            None => instructions_of(*w) is None,
        },
{
    match w {
        InstructionWrapper::A(a) => Some(step_texts(a)),
        InstructionWrapper::B(b) => {
            if b.len() == 0 {
                None
            } else {
                section_texts(&b[b.len() - 1].item_list_element)
            }
        },
        InstructionWrapper::C(c) => Some(paragraph_texts(c.as_str())),
        InstructionWrapper::D(d) => {
            if d.len() == 0 {
                None
            } else {
                Some(step_texts(&d[0]))
            }
        },
    }
}

fn image_text(i: &Option<ImageOrList>) -> (r: Option<String>)
    ensures
        match r {
            Some(t) => image_of(*i) == Some(t@),
            None => image_of(*i) is None,
        },
{
    match i {
        Some(ImageOrList::URL(u)) => Some(u.clone()),
        Some(ImageOrList::List(l)) => {
            if l.len() == 0 {
                None
            } else {
                Some(l[0].url.clone())
            }
        },
        Some(ImageOrList::URLList(l)) => {
            if l.len() == 0 {
                None
            } else {
                Some(l[0].clone())
            }
        },
        Some(ImageOrList::Image(o)) => Some(o.url.clone()),
        None => None,
    }
}

/// The recipe that a recipe node gives, with the page's address.
pub fn normalize_root_recipe(recipe: &RootRecipe, url: &str) -> (r: Result<ScrapedRecipe, ScrapeError>)
    ensures
        recipe_outcome(*recipe, url@, r),
{
    match instruction_texts(&recipe.recipe_instructions) {
        Some(instructions) => Ok(
            ScrapedRecipe {
                ingredients: copy_strings(&recipe.recipe_ingredient),
                instructions,
                name: recipe.name.clone(),
                url: String::from_str(url),
                image: image_text(&recipe.image),
            },
        ),
        None => Err(ScrapeError::Parse(String::from_str("recipe instructions hold no steps"))),
    }
}

/// The recipe of the first recipe node among `nodes`.
fn normalize_graph(nodes: &Vec<GraphNode>, url: &str) -> (r: Result<ScrapedRecipe, ScrapeError>)
    ensures
        match first_recipe(nodes@) {
            Some(rr) => recipe_outcome(rr, url@, r),
            None => r matches Err(ScrapeError::LDJSONMissingRecipe(m))
                && m@ == "failed to find recipe in ld json"@,
        },
{
    let mut i: usize = 0;
    proof {
        assert(nodes@.skip(0) =~= nodes@);
    }
    while i < nodes.len()
        invariant
            i <= nodes@.len(),
            first_recipe(nodes@) == first_recipe(nodes@.skip(i as int)),
        decreases nodes@.len() - i,
    {
        proof {
            assert(nodes@.skip(i as int).drop_first() =~= nodes@.skip(i + 1));
            assert(nodes@.skip(i as int)[0] == nodes@[i as int]);
        }
        match &nodes[i] {
            GraphNode::Recipe(rr) => {
                return normalize_root_recipe(rr, url);
            },
            GraphNode::Other => {},
        }
        i = i + 1;
    }
    proof {
        assert(nodes@.skip(i as int) =~= Seq::<GraphNode>::empty());
    }
    Err(ScrapeError::LDJSONMissingRecipe(String::from_str("failed to find recipe in ld json")))
}

/// The recipe of a page's structured data: the root itself where it is a recipe, else
/// the first recipe of its graph.
pub fn normalize_ld_json(ld_schema: Root, url: &str) -> (r: Result<ScrapedRecipe, ScrapeError>)
    ensures
        match ld_schema {
            Root::Recipe(rr) => recipe_outcome(rr, url@, r),
            Root::Graph(g) => match first_recipe(g.graph@) {
                Some(rr) => recipe_outcome(rr, url@, r),
                None => r matches Err(ScrapeError::LDJSONMissingRecipe(m))
                    && m@ == "failed to find recipe in ld json"@,
            },
        },
{
    match &ld_schema {
        Root::Recipe(rr) => normalize_root_recipe(rr, url),
        Root::Graph(g) => normalize_graph(&g.graph, url),
    }
}

/// The recipe of a page's structured data, given the outcome of decoding that data:
/// a decoding failure is reported as such, with its message.
pub fn scrape_from_json(decoded: Result<Root, String>, url: &str) -> (r: Result<ScrapedRecipe, ScrapeError>)
    ensures
        match decoded {
            Ok(root) => match root {
                Root::Recipe(rr) => recipe_outcome(rr, url@, r),
                Root::Graph(g) => match first_recipe(g.graph@) {
                    Some(rr) => recipe_outcome(rr, url@, r),
                    None => r matches Err(ScrapeError::LDJSONMissingRecipe(m))
                        && m@ == "failed to find recipe in ld json"@,
                },
            },
            Err(m) => r matches Err(ScrapeError::Deserialize(e)) && e@ == m@,
        },
{
    match decoded {
        Ok(root) => normalize_ld_json(root, url),
        Err(m) => Err(ScrapeError::Deserialize(m)),
    }
}

/// Whether a page holds an element that matches `script[type='application/ld+json']`.
pub uninterp spec fn has_ld_json(body: Seq<char>) -> bool;

/// The text of a page's first element that matches `script[type='application/ld+json']`.
pub uninterp spec fn ld_json_of(body: Seq<char>) -> Seq<char>;

/// Relies on scraper's `Html::parse_document`, `Selector::parse`, `Html::select` and
/// `ElementRef::text`: the text of the first element, in the order in which the parser
/// inserted them, that matches `script[type='application/ld+json']`, if there is one. An
/// HTML script element holds text alone, so this is its inner HTML; the text reads no
/// attribute, and depends on the page alone.
#[verifier::external_body]
fn ld_json_block(body: &str) -> (r: Option<String>)
    ensures
        r is Some <==> has_ld_json(body@),
        r matches Some(t) ==> t@ == ld_json_of(body@),
{
    let selector = scraper::Selector::parse("script[type='application/ld+json']").unwrap();
    scraper::Html::parse_document(body)
        .select(&selector)
        .next()
        .map(|e| e.text().collect::<Vec<_>>().join(""))
}

/// Relies on scraper's `Html::parse_document`, `Html::root_element` and `ElementRef::html`:
/// the HTML of the page's root `<html>` element, which the HTML parser always builds, so
/// the text starts with its start tag. Its attributes may come out in another order on
/// each parse, so nothing more is stated of it.
#[verifier::external_body]
fn root_html(body: &str) -> (r: String)
    ensures
        r@.len() >= 5 && r@.take(5) == "<html"@,
{
    scraper::Html::parse_document(body).root_element().html()
}

/// The texts of a page's `li.jetpack-recipe-ingredient` elements, in the order in which the
/// parser inserted them.
pub uninterp spec fn listed_ingredients_of(body: Seq<char>) -> Seq<Seq<char>>;

/// Relies on scraper's `Html::parse_document`, `Selector::parse`, `Html::select` and
/// `ElementRef::text`: the text of each element that matches `li.jetpack-recipe-ingredient`,
/// in the order in which the parser inserted them.
#[verifier::external_body]
fn listed_ingredients(body: &str) -> (r: Vec<String>)
    ensures
        strings_view(r@) == listed_ingredients_of(body@),
{
    let selector = scraper::Selector::parse("li.jetpack-recipe-ingredient").unwrap();
    scraper::Html::parse_document(body)
        .select(&selector)
        .map(|i| i.text().collect::<Vec<_>>().join(""))
        .collect()
}

/// The text of a page's first `div.jetpack-recipe-directions` element, if there is one.
pub uninterp spec fn directions_of(body: Seq<char>) -> Option<Seq<char>>;

/// Relies on scraper's `Html::parse_document`, `Selector::parse`, `Html::select` and
/// `ElementRef::text`: the text of the first element, in the order in which the parser
/// inserted them, that matches `div.jetpack-recipe-directions`, if there is one.
#[verifier::external_body]
fn directions_text(body: &str) -> (r: Option<String>)
    ensures
        match r {
            Some(t) => directions_of(body@) == Some(t@),
            None => directions_of(body@) is None,
        },
{
    let selector = scraper::Selector::parse("div.jetpack-recipe-directions").unwrap();
    scraper::Html::parse_document(body)
        .select(&selector)
        .next()
        .map(|x| x.text().collect::<Vec<_>>().join(""))
}

/// How many characters of the page's root HTML a missing-data error quotes.
pub const QUOTED_CHARS: usize = 40;

/// The structured recipe data of a page, or, where it has none, an error that quotes the
/// start of the page's root HTML, at most `QUOTED_CHARS` characters of it.
pub fn extract_ld(body: &str) -> (r: Result<String, ScrapeError>)
    ensures
        has_ld_json(body@) ==> (r matches Ok(t) && t@ == ld_json_of(body@)),
        !has_ld_json(body@) ==> (r matches Err(ScrapeError::NoLDJSON(m)) && 5 <= m@.len() <= QUOTED_CHARS
            && m@.take(5) == "<html"@),
{
    match ld_json_block(body) {
        Some(t) => Ok(t),
        None => {
            let h = root_html(body);
            let n = h.as_str().unicode_len();
            let k = if n < QUOTED_CHARS {
                n
            } else {
                QUOTED_CHARS
            };
            let m = String::from_str(h.as_str().substring_char(0, k));
            proof {
                assert(m@.take(5) =~= h@.take(5));
            }
            Err(ScrapeError::NoLDJSON(m))
        },
    }
}

pub open spec fn not_newline() -> spec_fn(char) -> bool {
    |c: char| c != '\n'
}

/// The pieces of `s[p..]` between line feeds, empty ones included.
pub open spec fn lines_from(s: Seq<char>, p: int) -> Seq<Seq<char>>
    decreases s.len() - p,
{
    let j = span(s, p, not_newline());
    if 0 <= p <= j < s.len() {
        seq![s.subrange(p, j)] + lines_from(s, j + 1)
    } else {
        seq![s.subrange(p, s.len() as int)]
    }
}

/// Splits a text at each line feed, keeping empty pieces.
pub fn split_lines(text: &str) -> (r: Vec<String>)
    ensures
        strings_view(r@) == lines_from(text@, 0),
{
    let n = text.unicode_len();
    let mut r: Vec<String> = Vec::new();
    let mut start: usize = 0;
    loop
        invariant
            n == text@.len(),
            start <= n,
            strings_view(r@) + lines_from(text@, start as int) == lines_from(text@, 0),
        decreases n - start,
    {
        proof {
            lemma_span_chars(text@, start as int, not_newline());
        }
        let mut j = start;
        while j < n && text.get_char(j) != '\n'
            invariant
                n == text@.len(),
                start <= j <= n,
                span(text@, j as int, not_newline()) == span(text@, start as int, not_newline()),
            decreases n - j,
        {
            j = j + 1;
        }
        let piece = String::from_str(text.substring_char(start, j));
        let ghost before = r@;
        r.push(piece);
        proof {
            assert(strings_view(r@) =~= strings_view(before) + seq![piece@]);
        }
        if j == n {
            proof {
                assert(strings_view(r@) =~= strings_view(before) + lines_from(text@, start as int));
            }
            return r;
        }
        proof {
            assert(strings_view(r@) + lines_from(text@, j + 1) =~= strings_view(before) + lines_from(text@, start as int));
        }
        start = j + 1;
    }
}

/// The recipe of a page without structured data, from its ingredient list items and its
/// directions, one instruction per line of their text.
pub fn scrape_from_html(body: &str) -> (r: Result<ScrapedRecipe, ScrapeError>)
    ensures
        match directions_of(body@) {
            Some(d) => r matches Ok(x) && x@ == (ScrapedRecipeView {
                ingredients: listed_ingredients_of(body@),
                instructions: lines_from(d, 0),
                name: Seq::empty(),
                url: Seq::empty(),
                image: None,
            }),
            None => r matches Err(ScrapeError::Parse(m)) && m@ == "no ld json or parsed html"@,
        },
{
    let ingredients = listed_ingredients(body);
    match directions_text(body) {
        Some(d) => {
            let instructions = split_lines(d.as_str());
            Ok(ScrapedRecipe { ingredients, instructions, name: String::new(), url: String::new(), image: None })
        },
        None => Err(ScrapeError::Parse(String::from_str("no ld json or parsed html"))),
    }
}

/// The recipe of a page, given the page, its address, and what was read from its
/// structured data: the outcome of `extract_ld`, with the data decoded where it was found.
/// A page without structured data falls back to its markup; any other error stands.
pub fn scrape_extracted(body: &str, url: &str, extracted: Result<Result<Root, String>, ScrapeError>) -> (r:
    Result<ScrapedRecipe, ScrapeError>)
    ensures
        match extracted {
            Ok(Ok(root)) => match root {
                Root::Recipe(rr) => recipe_outcome(rr, url@, r),
                Root::Graph(g) => match first_recipe(g.graph@) {
                    Some(rr) => recipe_outcome(rr, url@, r),
                    None => r matches Err(ScrapeError::LDJSONMissingRecipe(m))
                        && m@ == "failed to find recipe in ld json"@,
                },
            },
            Ok(Err(m)) => r matches Err(ScrapeError::Deserialize(e)) && e@ == m@,
            Err(ScrapeError::NoLDJSON(_)) => match directions_of(body@) {
                Some(d) => r matches Ok(x) && x@ == (ScrapedRecipeView {
                    ingredients: listed_ingredients_of(body@),
                    instructions: lines_from(d, 0),
                    name: Seq::empty(),
                    url: Seq::empty(),
                    image: None,
                }),
                None => r matches Err(ScrapeError::Parse(m)) && m@ == "no ld json or parsed html"@,
            },
            Err(e) => r == Err::<ScrapedRecipe, ScrapeError>(e),
        },
{
    match extracted {
        Ok(decoded) => scrape_from_json(decoded, url),
        Err(ScrapeError::NoLDJSON(_)) => scrape_from_html(body),
        Err(e) => Err(e),
    }
}

} // verus!
