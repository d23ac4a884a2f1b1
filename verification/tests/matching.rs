use media_renamer::matcher::{
    MatchResult, Matcher, Mode, MovieMatcher, PatternError, TelevisionMatcher, DIGIT_PATTERN,
    MOVIE_PATTERN, TELEVISION_PATTERN,
};

fn tv() -> Matcher {
    match Matcher::for_mode(Mode::Television) {
        Ok(m) => m,
        Err(_) => panic!("the television pattern compiles"),
    }
}

fn movie() -> Matcher {
    match Matcher::for_mode(Mode::Movie) {
        Ok(m) => m,
        Err(_) => panic!("the movie pattern compiles"),
    }
}

fn tv_match(keep: &str, extension: &str) -> Option<MatchResult> {
    Some(MatchResult::Television { keep: keep.to_string(), extension: extension.to_string() })
}

fn movie_match(title: &str, year: &str, extension: &str) -> Option<MatchResult> {
    Some(MatchResult::Movie {
        title: title.to_string(),
        year: year.to_string(),
        extension: extension.to_string(),
    })
}

fn groups(texts: &[Option<&str>]) -> Option<Vec<Option<String>>> {
    Some(texts.iter().map(|t| t.map(|s| s.to_string())).collect())
}

#[test]
fn patterns_are_the_documented_ones() {
    assert_eq!(TELEVISION_PATTERN, r"^(?P<keep>.*?S\d{2}E\d{2}).*(?P<ext>\.[^.]+)$");
    assert_eq!(MOVIE_PATTERN, r"^(?P<title>.*?)\s*(?P<year>(?:19|20)\d{2}).*(?P<ext>\.[^.]+)$");
    assert_eq!(DIGIT_PATTERN, r"^\d$");
}

#[test]
fn matcher_reports_its_mode() {
    assert_eq!(tv().mode(), Mode::Television);
    assert_eq!(movie().mode(), Mode::Movie);
}

#[test]
fn television_segments_of_a_release_name() {
    assert_eq!(
        tv().match_name("Show.Name.S01E02.1080p.WEB.mkv"),
        tv_match("Show.Name.S01E02", ".mkv")
    );
}

#[test]
fn movie_segments_of_a_release_name() {
    // Only white space is dropped between title and year: the dot stays
    // with the title until the title is tidied.
    assert_eq!(
        movie().match_name("Movie.Title.2019.BluRay.x264.mp4"),
        movie_match("Movie.Title.", "2019", ".mp4")
    );
}

#[test]
fn television_matcher_and_movie_matcher_stand_alone() {
    let t = TelevisionMatcher::new().ok().expect("the television pattern compiles");
    let m = MovieMatcher::new().ok().expect("the movie pattern compiles");
    assert_eq!(t.match_name("a.S10E20.x.avi"), tv_match("a.S10E20", ".avi"));
    assert_eq!(m.match_name("a 1984 x.avi"), movie_match("a", "1984", ".avi"));
    assert_eq!(t.match_name("a 1984 x.avi"), None);
    assert_eq!(m.match_name("a.S10E20.x.avi"), None);
}

#[test]
fn name_without_marker_matches_in_neither_mode() {
    assert_eq!(tv().match_name("randomfile.txt"), None);
    assert_eq!(movie().match_name("randomfile.txt"), None);
}

#[test]
fn name_without_extension_never_matches() {
    assert_eq!(tv().match_name("Show S01E02"), None);
    assert_eq!(movie().match_name("Movie 2019"), None);
    assert_eq!(tv().match_name("S01E02"), None);
    assert_eq!(movie().match_name("2019"), None);
}

#[test]
fn name_ending_in_a_dot_never_matches() {
    assert_eq!(tv().match_name("Show.S01E02."), None);
    assert_eq!(movie().match_name("Movie.2019."), None);
}

#[test]
fn marker_must_stand_before_the_extension() {
    assert_eq!(tv().match_name("Show.mkvS01E02"), None);
    assert_eq!(tv().match_name("Show.S01E02"), None);
    assert_eq!(movie().match_name("Movie.2019"), None);
}

#[test]
fn marker_directly_before_the_extension() {
    assert_eq!(tv().match_name("S01E02.mkv"), tv_match("S01E02", ".mkv"));
    assert_eq!(movie().match_name("2019.mp4"), movie_match("", "2019", ".mp4"));
}

#[test]
fn first_episode_marker_wins() {
    assert_eq!(tv().match_name("A.S01E02.B.S03E04.mkv"), tv_match("A.S01E02", ".mkv"));
}

#[test]
fn first_year_wins_and_the_second_is_dropped() {
    assert_eq!(movie().match_name("Old.1999.New.2005.mkv"), movie_match("Old.", "1999", ".mkv"));
    assert_eq!(movie().match_name("Old 1999 New 2005.mkv"), movie_match("Old", "1999", ".mkv"));
}

#[test]
fn white_space_before_the_year_is_dropped() {
    assert_eq!(
        movie().match_name("My Movie \t 2010 extras.avi"),
        movie_match("My Movie", "2010", ".avi")
    );
}

#[test]
fn episode_marker_is_case_sensitive() {
    assert_eq!(tv().match_name("show.s01e02.mkv"), None);
    assert_eq!(tv().match_name("show.S01e02.mkv"), None);
}

#[test]
fn episode_marker_needs_two_digits_twice() {
    assert_eq!(tv().match_name("show.S1E02.mkv"), None);
    assert_eq!(tv().match_name("show.S01E2.mkv"), None);
    assert_eq!(tv().match_name("show.S001E002.mkv"), None);
}

#[test]
fn year_must_open_with_19_or_20() {
    assert_eq!(movie().match_name("Movie.1899.mkv"), None);
    assert_eq!(movie().match_name("Movie.2100.mkv"), None);
    assert_eq!(movie().match_name("Movie.1900.mkv"), movie_match("Movie.", "1900", ".mkv"));
    assert_eq!(movie().match_name("Movie.2099.mkv"), movie_match("Movie.", "2099", ".mkv"));
}

#[test]
fn year_is_found_inside_a_longer_run_of_digits() {
    assert_eq!(movie().match_name("x.120191.mkv"), movie_match("x.1", "2019", ".mkv"));
}

#[test]
fn extension_is_what_follows_the_last_dot() {
    assert_eq!(tv().match_name("a.S01E02.tar.gz"), tv_match("a.S01E02", ".gz"));
    assert_eq!(tv().match_name("a.S01E02.x.MKV"), tv_match("a.S01E02", ".MKV"));
    assert_eq!(movie().match_name("a 2001.Mp4"), movie_match("a", "2001", ".Mp4"));
}

#[test]
fn digits_are_the_engines_digits() {
    assert_eq!(
        tv().match_name("Show.S\u{0660}\u{0661}E\u{0660}\u{0662}.mkv"),
        tv_match("Show.S\u{0660}\u{0661}E\u{0660}\u{0662}", ".mkv")
    );
    assert_eq!(
        movie().match_name("Film 19\u{0664}\u{0665}.mkv"),
        movie_match("Film", "19\u{0664}\u{0665}", ".mkv")
    );
}

#[test]
fn line_break_in_front_of_the_marker_is_no_match() {
    assert_eq!(tv().match_name("Show\n.S01E02.mkv"), None);
    assert_eq!(movie().match_name("Film\nx 2019.mkv"), None);
}

#[test]
fn names_with_wide_characters() {
    assert_eq!(tv().match_name("Séries.S01E02.ünï.mkv"), tv_match("Séries.S01E02", ".mkv"));
    assert_eq!(movie().match_name("映画 2019 版.mp4"), movie_match("映画", "2019", ".mp4"));
}

#[test]
fn accept_takes_what_the_engine_captures() {
    let name = "Show.Name.S01E02.1080p.WEB.mkv";
    let captured = groups(&[Some(name), Some("Show.Name.S01E02"), Some(".mkv")]);
    assert_eq!(tv().accept(name, &captured), tv_match("Show.Name.S01E02", ".mkv"));
    let name = "Movie.Title.2019.BluRay.x264.mp4";
    let captured = groups(&[Some(name), Some("Movie.Title."), Some("2019"), Some(".mp4")]);
    assert_eq!(movie().accept(name, &captured), movie_match("Movie.Title.", "2019", ".mp4"));
}

#[test]
fn accept_turns_down_no_match() {
    assert_eq!(tv().accept("a.S01E02.mkv", &None), None);
    assert_eq!(movie().accept("a 2019.mkv", &None), None);
}

#[test]
fn accept_turns_down_a_wrong_number_of_groups() {
    let name = "a.S01E02.mkv";
    assert_eq!(tv().accept(name, &groups(&[Some(name), Some("a.S01E02")])), None);
    assert_eq!(
        tv().accept(name,
            &groups(&[Some(name), Some("a.S01E02"), Some(".mkv"), Some(".mkv")])
        ),
        None
    );
    assert_eq!(tv().accept(name, &groups(&[])), None);
    let name = "a 2019.mkv";
    assert_eq!(movie().accept(name, &groups(&[Some(name), Some("a"), Some("2019")])), None);
}

#[test]
fn accept_turns_down_a_group_that_took_no_part() {
    let name = "a.S01E02.mkv";
    assert_eq!(tv().accept(name, &groups(&[Some(name), None, Some(".mkv")])), None);
    assert_eq!(tv().accept(name, &groups(&[Some(name), Some("a.S01E02"), None])), None);
    let name = "a 2019.mkv";
    assert_eq!(
        movie().accept(name, &groups(&[Some(name), Some("a"), None, Some(".mkv")])),
        None
    );
}

#[test]
fn accept_takes_a_match_whatever_the_whole_match_says() {
    let name = "a.S01E02.mkv";
    assert_eq!(
        tv().accept(name, &groups(&[None, Some("a.S01E02"), Some(".mkv")])),
        tv_match("a.S01E02", ".mkv")
    );
}

#[test]
fn accept_turns_down_texts_that_are_not_cut_from_the_name() {
    let name = "a.S01E02.x.mkv";
    let whole = Some(name);
    // keep is no start of the name
    assert_eq!(
        tv().accept(name, &groups(&[whole, Some("b.S01E02"), Some(".mkv")])),
        None
    );
    // the extension is not the end of the name
    assert_eq!(
        tv().accept(name, &groups(&[whole, Some("a.S01E02"), Some(".avi")])),
        None
    );
    // the extension holds a second dot
    assert_eq!(
        tv().accept(name, &groups(&[whole, Some("a.S01E02"), Some(".x.mkv")])),
        None
    );
    // the extension is a bare dot
    assert_eq!(
        tv().accept("a.S01E02.", &groups(&[whole, Some("a.S01E02"), Some(".")])),
        None
    );
    // keep does not end in an episode marker
    assert_eq!(
        tv().accept(name, &groups(&[whole, Some("a.S01E02."), Some(".mkv")])),
        None
    );
    assert_eq!(tv().accept(name, &groups(&[whole, Some("a.S0"), Some(".mkv")])), None);
    // keep and extension overlap
    assert_eq!(
        tv().accept("S01E.2", &groups(&[whole, Some("S01E.2"), Some(".2")])),
        None
    );
}

#[test]
fn accept_turns_down_movie_texts_that_are_not_cut_from_the_name() {
    let name = "The Film 2019 x.mkv";
    let whole = Some(name);
    let ok = groups(&[whole, Some("The Film"), Some("2019"), Some(".mkv")]);
    assert_eq!(movie().accept(name, &ok), movie_match("The Film", "2019", ".mkv"));
    // the title is no start of the name
    assert_eq!(
        movie().accept(name, &groups(&[whole, Some("A Film"), Some("2019"), Some(".mkv")])),
        None
    );
    // the year does not stand in the name
    assert_eq!(
        movie().accept(name, &groups(&[whole, Some("The Film"), Some("2018"), Some(".mkv")])),
        None
    );
    // the year stands only inside the title
    assert_eq!(
        movie().accept(name,
            &groups(&[whole, Some("The Film 2019"), Some("2019"), Some(".mkv")])
        ),
        None
    );
    // the year is no year token
    assert_eq!(
        movie().accept("The Film 1819 x.mkv", &groups(&[
            whole,
            Some("The Film"),
            Some("1819"),
            Some(".mkv")
        ])),
        None
    );
    assert_eq!(
        movie().accept(name, &groups(&[whole, Some("The Film"), Some("201"), Some(".mkv")])),
        None
    );
    assert_eq!(
        movie().accept("a 20.1.mkv", &groups(&[whole, Some("a"), Some("20.1"), Some(".mkv")])),
        None
    );
    // the year runs into the extension
    assert_eq!(
        movie().accept("a 201.9", &groups(&[whole, Some("a"), Some("201."), Some(".9")])),
        None
    );
    // the extension is not the end of the name
    assert_eq!(
        movie().accept(name, &groups(&[whole, Some("The Film"), Some("2019"), Some(".mp4")])),
        None
    );
}

#[test]
fn accept_goes_by_the_mode() {
    let name = "a.S01E02.mkv";
    let captured = groups(&[Some(name), Some("a.S01E02"), Some(".mkv")]);
    assert_eq!(movie().accept(name, &captured), None);
    assert_eq!(tv().accept(name, &captured), tv_match("a.S01E02", ".mkv"));
    let name = "a 2019.mkv";
    let captured = groups(&[Some(name), Some("a"), Some("2019"), Some(".mkv")]);
    assert_eq!(tv().accept(name, &captured), None);
    assert_eq!(movie().accept(name, &captured), movie_match("a", "2019", ".mkv"));
}

#[test]
fn accept_turns_down_a_marker_without_digits() {
    for keep in ["a.SabE02", "a.S0bE02", "a.S01Ea2", "a.S01E0b", "a.S 1E02", "a.S01E-2", "a.S.1E02"] {
        let name = format!("{keep}.mkv");
        let captured = groups(&[Some(name.as_str()), Some(keep), Some(".mkv")]);
        assert_eq!(tv().accept(&name, &captured), None, "{keep}");
    }
    for year in ["19ab", "201x", "20x1", "19 9", "19-9"] {
        let name = format!("a {year}.mkv");
        let captured = groups(&[Some(name.as_str()), Some("a"), Some(year), Some(".mkv")]);
        assert_eq!(movie().accept(&name, &captured), None, "{year}");
    }
}

#[test]
fn accept_takes_every_ascii_digit() {
    for d in ['0', '1', '2', '3', '4', '5', '6', '7', '8', '9'] {
        let keep = format!("S{d}{d}E{d}{d}");
        let name = format!("{keep}.mkv");
        let captured = groups(&[Some(name.as_str()), Some(keep.as_str()), Some(".mkv")]);
        assert_eq!(tv().accept(&name, &captured), tv_match(&keep, ".mkv"));
        assert_eq!(tv().match_name(&name), tv_match(&keep, ".mkv"));
        let year = format!("20{d}{d}");
        let name = format!("{year}.mkv");
        let captured = groups(&[Some(name.as_str()), Some(""), Some(year.as_str()), Some(".mkv")]);
        assert_eq!(movie().accept(&name, &captured), movie_match("", &year, ".mkv"));
        assert_eq!(movie().match_name(&name), movie_match("", &year, ".mkv"));
    }
}

#[test]
fn accept_and_engine_agree_on_digits_beyond_ascii() {
    // Arabic-Indic and fullwidth digits are digits; a superscript two and a
    // Roman numeral are not.
    for (c, digit) in [('\u{0663}', true), ('\u{ff15}', true), ('\u{b2}', false), ('\u{2167}', false)] {
        let keep = format!("S{c}{c}E{c}{c}");
        let name = format!("{keep}.mkv");
        let captured = groups(&[Some(name.as_str()), Some(keep.as_str()), Some(".mkv")]);
        let expected = if digit { tv_match(&keep, ".mkv") } else { None };
        assert_eq!(tv().accept(&name, &captured), expected);
        assert_eq!(tv().match_name(&name), expected);
        let year = format!("19{c}{c}");
        let name = format!("a {year}.mkv");
        let captured = groups(&[Some(name.as_str()), Some("a"), Some(year.as_str()), Some(".mkv")]);
        let expected = if digit { movie_match("a", &year, ".mkv") } else { None };
        assert_eq!(movie().accept(&name, &captured), expected);
        assert_eq!(movie().match_name(&name), expected);
    }
}

#[test]
fn refused_pattern_is_reported_with_its_mode() {
    let broken = regex::Regex::new("(");
    let digit = regex::Regex::new(DIGIT_PATTERN);
    assert!(broken.is_err());
    assert!(digit.is_ok());
    let Err(PatternError { mode, cause }) =
        TelevisionMatcher::from_compiled(broken.clone(), digit.clone())
    else {
        panic!("a refused pattern gives no matcher");
    };
    assert_eq!(mode, Mode::Television);
    assert_eq!(Some(cause), broken.clone().err());
    let Err(PatternError { mode, cause }) = MovieMatcher::from_compiled(broken.clone(), digit)
    else {
        panic!("a refused pattern gives no matcher");
    };
    assert_eq!(mode, Mode::Movie);
    assert_eq!(Some(cause), broken.err());
}

#[test]
fn refused_digit_pattern_is_reported_too() {
    let broken = regex::Regex::new("[");
    let Err(PatternError { mode, cause }) =
        TelevisionMatcher::from_compiled(regex::Regex::new(TELEVISION_PATTERN), broken.clone())
    else {
        panic!("a refused digit pattern gives no matcher");
    };
    assert_eq!(mode, Mode::Television);
    assert_eq!(Some(cause), broken.clone().err());
    let Err(PatternError { mode, cause }) =
        MovieMatcher::from_compiled(regex::Regex::new(MOVIE_PATTERN), broken.clone())
    else {
        panic!("a refused digit pattern gives no matcher");
    };
    assert_eq!(mode, Mode::Movie);
    assert_eq!(Some(cause), broken.err());
}

#[test]
fn refusal_of_the_mode_pattern_comes_first() {
    let first = regex::Regex::new("(");
    let second = regex::Regex::new("[");
    assert_ne!(first.clone().err(), second.clone().err());
    let Err(PatternError { cause, .. }) = TelevisionMatcher::from_compiled(first.clone(), second.clone())
    else {
        panic!("refused patterns give no matcher");
    };
    assert_eq!(Some(cause), first.clone().err());
    let Err(PatternError { cause, .. }) = MovieMatcher::from_compiled(first.clone(), second) else {
        panic!("refused patterns give no matcher");
    };
    assert_eq!(Some(cause), first.err());
}

#[test]
fn patterns_compile() {
    assert!(TelevisionMatcher::new().is_ok());
    assert!(MovieMatcher::new().is_ok());
    assert!(Matcher::for_mode(Mode::Television).is_ok());
    assert!(Matcher::for_mode(Mode::Movie).is_ok());
}

#[test]
fn compiled_pattern_is_wrapped() {
    let t = TelevisionMatcher::from_compiled(
        regex::Regex::new(TELEVISION_PATTERN),
        regex::Regex::new(DIGIT_PATTERN),
    );
    let Ok(t) = t else {
        panic!("the television pattern compiles");
    };
    assert_eq!(t.match_name("x.S01E01.y.z"), tv_match("x.S01E01", ".z"));
    let m = MovieMatcher::from_compiled(
        regex::Regex::new(MOVIE_PATTERN),
        regex::Regex::new(DIGIT_PATTERN),
    );
    let Ok(m) = m else {
        panic!("the movie pattern compiles");
    };
    assert_eq!(m.match_name("x 2000 y.z"), movie_match("x", "2000", ".z"));
}
