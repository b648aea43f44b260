use gravador::strings::{chars_of, contains_chars, string_of, to_lowercase, trim_chars, trim_str};
use gravador::transcription::split_sentences;

#[test]
fn trim_matches_std() {
    for s in ["  a b  ", "\t\nx\u{3000}", "", "   ", "\u{a0}olá\u{2029}", "no-trim"] {
        assert_eq!(trim_str(s), s.trim());
        let cs: Vec<char> = s.chars().collect();
        let t: String = trim_chars(&cs).into_iter().collect();
        assert_eq!(t, s.trim());
    }
}

#[test]
fn sentences_are_split_and_trimmed() {
    assert_eq!(split_sentences("Olá mundo. Tudo bem? Sim!"), vec!["Olá mundo", "Tudo bem", "Sim"]);
    assert_eq!(split_sentences("...  ! ?"), Vec::<String>::new());
    assert_eq!(split_sentences("sem ponto"), vec!["sem ponto"]);
    assert_eq!(split_sentences(""), Vec::<String>::new());
}

#[test]
fn contains_matches_std() {
    let cases = [("abcabd", "abd"), ("abc", ""), ("", ""), ("", "a"), ("aaa", "aaaa"), ("xyz", "yz"), ("xyz", "zy")];
    for (h, n) in cases {
        assert_eq!(contains_chars(&chars_of(h), &chars_of(n)), h.contains(n), "{:?} {:?}", h, n);
    }
}

#[test]
fn strings_round_trip_through_chars() {
    let s = "Transcrição ✓";
    assert_eq!(string_of(&chars_of(s)), s);
    assert_eq!(to_lowercase("ÁRVORE Grande"), "árvore grande");
}

#[test]
fn sentences_are_clean() {
    for text in ["  Um.  Dois!!  ?Três  ", "a.b.c", "\u{2003}x\u{2003}.\u{2003}", "Fim?", ". . ."] {
        for s in split_sentences(text) {
            assert!(!s.is_empty());
            assert_eq!(s.trim(), s);
            assert!(!s.contains(['.', '!', '?']));
        }
    }
}
