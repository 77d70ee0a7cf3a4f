use runslate::json::Json;
use runslate::translators::dictionaryapi::DictionaryApi;
use runslate::translators::ecdict::Ecdict;
use runslate::translators::google::Google;
use runslate::translators::youdao::Youdao;
use runslate::translators::{Translator, Translators};

const END: &str = "\x1b[0m";

fn dyed(code: &str, text: &str) -> String {
    format!("\x1b[{}m{}{}", code, text, END)
}

fn json(text: &str) -> Json {
    Json::parse(text).unwrap()
}

#[test]
fn the_local_dictionary_shows_what_an_entry_has() {
    let entry = json(
        "{\"word\":\"go\",\"exchange\":\"p:went/d:gone\",\"phonetic\":\"gәu\",\"definition\":\"n. a turn\\\\nv. move\",\"translation\":\"vi. 去\\\\nn. 围棋\"}",
    );
    let expected = format!(
        "go\n{}\n{}\n{}\n{}\n",
        dyed("96", "p:went, d:gone"),
        dyed("93", "gәu"),
        dyed("92", "n. a turn\nv. move"),
        dyed("34", "vi. 去\nn. 围棋"),
    );
    assert_eq!(Ecdict.show(&entry, true), expected);
    assert_eq!(Ecdict.show(&entry, false), expected);
}

#[test]
fn the_local_dictionary_shows_nothing_for_a_word_it_lacks() {
    assert_eq!(Ecdict.show(&Json::Null, true), "");
    assert_eq!(Ecdict.show(&json("{}"), true), "");
    assert_eq!(Ecdict.show(&json("{\"word\":1,\"phonetic\":null}"), true), "");
    assert_eq!(Ecdict.show(&json("{\"translation\":\"好\"}"), true), format!("{}\n", dyed("34", "好")));
}

#[test]
fn google_shows_the_sentence_and_three_entries_of_each_part() {
    let answer = json(
        "{\"sentences\":[{\"trans\":\"你好\",\"orig\":\"hello\"},{\"trans\":\"ignored\"}],\
          \"dict\":[\
            {\"pos\":\"interjection\",\"entry\":[\
               {\"word\":\"你好\",\"reverse_translation\":[\"hello\",\"hi\",3]},\
               {\"word\":\"喂\"},\
               {\"reverse_translation\":[\"hey\"]},\
               {\"word\":\"fourth\",\"reverse_translation\":[\"never\"]}]},\
            {\"entry\":[{\"word\":\"nameless\"}]},\
            {\"pos\":\"noun\"}]}",
    );
    let expected = format!(
        "{}\n{}\n  {}{}\n  {}{}\n{}\n",
        dyed("90", "你好"),
        dyed("34", "interjection"),
        dyed("90", "你好"),
        dyed("96", "hello, hi"),
        dyed("90", "喂"),
        dyed("96", "hey"),
        dyed("34", "noun"),
    );
    assert_eq!(Google.show(&answer, true), expected);
    assert_eq!(Google.show(&answer, false), expected);
}

#[test]
fn google_shows_nothing_of_an_answer_without_parts() {
    assert_eq!(Google.show(&json("{}"), true), "");
    assert_eq!(Google.show(&json("{\"sentences\":[]}"), true), "");
    assert_eq!(Google.show(&json("{\"sentences\":[\"x\"],\"dict\":{}}"), true), "");
    assert_eq!(Google.show(&json("{\"sentences\":{\"trans\":\"x\"}}"), true), "");
    assert_eq!(Google.show(&Json::Null, true), "");
}

#[test]
fn the_dictionary_service_shows_entries_with_numbered_definitions() {
    let answer = json(
        "{\"entries\":[\
           {\"word\":\"hello\",\
            \"phonetics\":[{\"text\":\"/həˈləʊ/\"},{\"audio\":\"x\"},{\"text\":\"/həˈloʊ/\"},7],\
            \"meanings\":[\
              {\"partOfSpeech\":\"noun\",\"definitions\":[\
                 {\"definition\":\"A greeting.\",\"example\":\"a hello\",\"synonyms\":[\"greeting\",\"hi\"]},\
                 {\"example\":\"only example\",\"synonyms\":[]},\
                 {\"definition\":\"Third.\",\"synonyms\":[1]}]},\
              {\"definitions\":[{\"definition\":\"No part.\"}]},\
              5]},\
           \"skipped\",\
           {}]}",
    );
    let expected = format!(
        "{}\n{}\n{}\n1. {}\n   {}\n   {}\n   {}\n3. {}\n1. {}\n\n\n",
        dyed("97", "hello"),
        dyed("93", "/həˈləʊ/ /həˈloʊ/"),
        dyed("34", "noun"),
        dyed("36", "A greeting."),
        dyed("90", "a hello"),
        dyed("32", "synonyms: greeting, hi"),
        dyed("90", "only example"),
        dyed("36", "Third."),
        dyed("36", "No part."),
    );
    assert_eq!(DictionaryApi.show(&answer, true), expected);
}

#[test]
fn the_dictionary_service_shows_nothing_without_entries() {
    assert_eq!(DictionaryApi.show(&json("{}"), true), "");
    assert_eq!(DictionaryApi.show(&json("{\"entries\":{\"title\":\"No Definitions Found\"}}"), true), "");
    assert_eq!(DictionaryApi.show(&json("{\"entries\":[]}"), true), "");
    assert_eq!(DictionaryApi.show(&json("{\"entries\":[{\"phonetics\":[{}]}]}"), true), "\n");
}

fn youdao_answer() -> Json {
    json(
        "{\"returnPhrase\":[\"hello\"],\
          \"translation\":[\"你好\",2],\
          \"basic\":{\
             \"uk-phonetic\":\"həˈləʊ\",\"us-phonetic\":\"həˈloʊ\",\
             \"wfs\":[{\"wf\":{\"name\":\"复数\",\"value\":\"hellos\"}},{\"wf\":{\"name\":\"only\"}},\"x\",{\"a\":{\"name\":\"n\",\"value\":\"v\"},\"b\":{\"name\":\"m\",\"value\":\"w\"}}],\
             \"exam_type\":[\"初中\",1,\"高中\"],\
             \"explains\":[\"int. 喂\",\"n. 招呼\"]},\
          \"web\":[\
             {\"key\":\"Hello\",\"value\":[\"你好\",\"您好\"]},\
             \"skipped\",\
             {\"value\":[\"a\",1]},\
             {\"key\":\"K\"}]}",
    )
}

#[test]
fn youdao_shows_everything_when_asked_for_more() {
    let expected = format!(
        "{}\n{}\n{}\n{}\n{}\n{}\n{}\n{}\n",
        dyed("90", "\"hello\""),
        dyed("97", "\"你好\"2"),
        dyed("93", "英 [həˈləʊ]    美 [həˈloʊ]"),
        dyed("36", "复数：hellos；n：v；m：w"),
        dyed("32", "初中; 高中"),
        dyed("93", "int. 喂\nn. 招呼"),
        dyed("34", "网络释义"),
        dyed("36", "Hello 你好；您好\na；\nK \n"),
    );
    assert_eq!(Youdao.show(&youdao_answer(), true), expected);
}

#[test]
fn youdao_shows_less_when_not_asked_for_more() {
    let expected = format!(
        "{}\n{}\n{}\n{}\n{}\n",
        dyed("97", "\"你好\"2"),
        dyed("93", "英 [həˈləʊ]    美 [həˈloʊ]"),
        dyed("93", "int. 喂\nn. 招呼"),
        dyed("34", "网络释义"),
        dyed("36", "Hello 你好；您好\na；\nK \n"),
    );
    assert_eq!(Youdao.show(&youdao_answer(), false), expected);
}

#[test]
fn youdao_shows_what_little_an_answer_has() {
    assert_eq!(Youdao.show(&json("{}"), true), "");
    assert_eq!(Youdao.show(&Json::Null, true), "");
    assert_eq!(Youdao.show(&json("{\"translation\":[]}"), true), format!("{}\n", dyed("97", "")));
    assert_eq!(Youdao.show(&json("{\"translation\":\"x\",\"basic\":[1]}"), true), "");
    assert_eq!(
        Youdao.show(&json("{\"basic\":{\"us-phonetic\":\"x\",\"wfs\":[]}}"), true),
        format!("{}\n{}\n", dyed("93", "美 [x]"), dyed("36", ""))
    );
    assert_eq!(Youdao.show(&json("{\"web\":null}"), true), format!("{}\n", dyed("34", "网络释义")));
    assert_eq!(
        Youdao.show(&json("{\"web\":[]}"), false),
        format!("{}\n{}\n", dyed("34", "网络释义"), dyed("36", ""))
    );
}

#[test]
fn an_answer_is_shown_by_the_provider_it_came_from() {
    let answer = json("{\"word\":\"hi\",\"translation\":[\"嗨\"],\"sentences\":[{\"trans\":\"嗨\"}],\"entries\":[{\"word\":\"hi\"}]}");
    assert_eq!(Translators::Ecdict.show(&answer, true), Ecdict.show(&answer, true));
    assert_eq!(Translators::Google.show(&answer, true), Google.show(&answer, true));
    assert_eq!(Translators::Youdao.show(&answer, true), Youdao.show(&answer, true));
    assert_eq!(Translators::DictionaryApi.show(&answer, true), DictionaryApi.show(&answer, true));
    assert_eq!(Translators::Ecdict.show(&answer, true), "hi\n");
    assert_eq!(Translators::Google.show(&answer, true), format!("{}\n", dyed("90", "嗨")));
    assert_eq!(Translators::Youdao.show(&answer, false), format!("{}\n", dyed("97", "\"嗨\"")));
    assert_eq!(Translators::DictionaryApi.show(&answer, true), format!("{}\n\n", dyed("97", "hi")));
}
