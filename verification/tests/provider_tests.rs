use popcorn_hero::metadata::{bare_metadata, CastMember, CrewMember};
use popcorn_hero::omdb::{lookup_url, omdb_metadata, OmdbResult};
use popcorn_hero::tmdb::{
    episode_url, first_result, image_url, movie_detail_url, movie_metadata, movie_search_url,
    tv_detail_url, tv_metadata, tv_search_url, wanted_episode, EpisodeAnswer, TmdbCredits,
    TmdbDetail, TmdbEpisodeDetail, CAST_LIMIT, CREW_LIMIT, TMDB_BASE_URL, TMDB_IMAGE_BASE,
};

fn some(s: &str) -> Option<String> {
    Some(s.to_string())
}

#[test]
fn tmdb_addresses() {
    assert_eq!(TMDB_BASE_URL, "https://api.themoviedb.org/3");
    assert_eq!(TMDB_IMAGE_BASE, "https://image.tmdb.org/t/p");
    assert_eq!(
        movie_search_url("KEY", "Movie Name", Some(2024)),
        "https://api.themoviedb.org/3/search/movie?api_key=KEY&query=Movie%20Name&year=2024"
    );
    assert_eq!(
        movie_search_url("KEY", "A&B", None),
        "https://api.themoviedb.org/3/search/movie?api_key=KEY&query=A%26B"
    );
    assert_eq!(
        movie_detail_url("KEY", 603),
        "https://api.themoviedb.org/3/movie/603?api_key=KEY&append_to_response=credits"
    );
    assert_eq!(
        tv_search_url("KEY", "Series Name"),
        "https://api.themoviedb.org/3/search/tv?api_key=KEY&query=Series%20Name"
    );
    assert_eq!(
        tv_detail_url("KEY", 1399),
        "https://api.themoviedb.org/3/tv/1399?api_key=KEY&append_to_response=credits"
    );
    assert_eq!(
        episode_url("KEY", 1399, 1, 5),
        "https://api.themoviedb.org/3/tv/1399/season/1/episode/5?api_key=KEY"
    );
    assert_eq!(image_url("w500", "/abc.jpg"), "https://image.tmdb.org/t/p/w500/abc.jpg");
}

#[test]
fn first_result_of_a_search() {
    assert_eq!(first_result(&vec![7, 8, 9]), Some(7));
    assert_eq!(first_result(&vec![]), None);
}

fn cast(n: usize) -> Vec<CastMember> {
    (0..n)
        .map(|i| CastMember {
            name: format!("Actor {}", i),
            character: some("Role"),
            profile_path: None,
        })
        .collect()
}

fn crew(jobs: &[Option<&str>]) -> Vec<CrewMember> {
    jobs.iter()
        .enumerate()
        .map(|(i, j)| CrewMember {
            name: format!("Crew {}", i),
            job: j.map(|s| s.to_string()),
            profile_path: None,
        })
        .collect()
}

fn detail() -> TmdbDetail {
    TmdbDetail {
        id: 603,
        title: some("The Matrix"),
        original_title: some("The Matrix (orig)"),
        overview: some("A hacker..."),
        tagline: some("Free your mind"),
        release_date: some("1999-03-31"),
        runtimes: vec![136, 140],
        vote_average: some("8.2"),
        vote_count: Some(25000),
        genres: Some(vec!["Action".to_string(), "Science Fiction".to_string()]),
        poster_path: some("/poster.jpg"),
        backdrop_path: some("/backdrop.jpg"),
        imdb_id: some("tt0133093"),
        original_language: some("en"),
        status: some("Released"),
        production_companies: Some(vec!["Warner Bros.".to_string()]),
        credits: Some(TmdbCredits {
            cast: Some(cast(12)),
            crew: Some(crew(&[
                Some("Director"),
                Some("Producer"),
                Some("Writer"),
                None,
                Some("Screenplay"),
                Some("Executive Producer"),
                Some("director"),
            ])),
        }),
    }
}

#[test]
fn film_record_from_details() {
    let r = movie_metadata(detail(), "now".to_string());
    assert_eq!(r.poster_path, some("/poster.jpg"));
    assert_eq!(r.backdrop_path, some("/backdrop.jpg"));
    let mut want = bare_metadata("The Matrix".to_string(), "tmdb", "now".to_string());
    want.original_title = some("The Matrix (orig)");
    want.year = Some(1999);
    want.overview = some("A hacker...");
    want.tagline = some("Free your mind");
    want.genres = vec!["Action".to_string(), "Science Fiction".to_string()];
    want.runtime_minutes = Some(136);
    want.rating = some("8.2");
    want.vote_count = Some(25000);
    want.release_date = some("1999-03-31");
    want.imdb_id = some("tt0133093");
    want.tmdb_id = Some(603);
    want.cast = cast(10);
    let all = crew(&[Some("Director"), None, Some("Writer"), None, Some("Screenplay")]);
    want.crew = vec![
        CrewMember { name: "Crew 0".to_string(), ..clone_crew(&all[0]) },
        CrewMember { name: "Crew 2".to_string(), ..clone_crew(&all[2]) },
        CrewMember { name: "Crew 4".to_string(), ..clone_crew(&all[4]) },
    ];
    want.studios = vec!["Warner Bros.".to_string()];
    want.language = some("en");
    want.status = some("Released");
    assert_eq!(r.metadata, want);
}

fn clone_crew(c: &CrewMember) -> CrewMember {
    CrewMember { name: c.name.clone(), job: c.job.clone(), profile_path: c.profile_path.clone() }
}

#[test]
fn film_record_from_sparse_details() {
    let d = TmdbDetail {
        id: 1,
        title: None,
        original_title: None,
        overview: None,
        tagline: None,
        release_date: some("unknown"),
        runtimes: vec![],
        vote_average: None,
        vote_count: None,
        genres: None,
        poster_path: None,
        backdrop_path: None,
        imdb_id: None,
        original_language: None,
        status: None,
        production_companies: None,
        credits: None,
    };
    let r = movie_metadata(d, "now".to_string());
    let mut want = bare_metadata(String::new(), "tmdb", "now".to_string());
    want.tmdb_id = Some(1);
    want.release_date = some("unknown");
    assert_eq!(r.metadata, want);
    assert_eq!(r.poster_path, None);
    assert_eq!(r.backdrop_path, None);
}

#[test]
fn series_record_with_episode() {
    let mut d = detail();
    d.credits = Some(TmdbCredits {
        cast: Some(cast(3)),
        crew: Some(crew(&[Some("Executive Producer"); 12])),
    });
    let answer = EpisodeAnswer {
        season: 2,
        episode: 7,
        detail: TmdbEpisodeDetail {
            name: some("The One"),
            overview: some("Things happen"),
            still_path: some("/still.jpg"),
        },
    };
    let r = tv_metadata(d, Some(answer), "now".to_string());
    let m = r.metadata;
    assert_eq!(m.title, "The Matrix");
    assert_eq!(m.year, Some(1999));
    assert_eq!(m.imdb_id, None);
    assert_eq!(m.tmdb_id, Some(603));
    assert_eq!(m.runtime_minutes, Some(136));
    assert_eq!(m.cast, cast(3));
    assert_eq!(m.crew.len(), 10);
    assert_eq!(m.crew[9].name, "Crew 9");
    assert_eq!(m.season_number, Some(2));
    assert_eq!(m.episode_number, Some(7));
    assert_eq!(m.episode_title, some("The One"));
    assert_eq!(m.episode_overview, some("Things happen"));
    assert_eq!(m.episode_still, some("/still.jpg"));
    assert_eq!(m.provider, "tmdb");
    assert_eq!(CAST_LIMIT, 10);
    assert_eq!(CREW_LIMIT, 10);
}

#[test]
fn series_record_without_episode() {
    let r = tv_metadata(detail(), None, "now".to_string());
    let m = r.metadata;
    assert_eq!(m.season_number, None);
    assert_eq!(m.episode_number, None);
    assert_eq!(m.episode_title, None);
    assert_eq!(m.imdb_id, None);
    let names: Vec<&str> = m.crew.iter().map(|c| c.name.as_str()).collect();
    assert_eq!(names, vec!["Crew 0", "Crew 2", "Crew 4", "Crew 5"]);
    assert_eq!(m.cast.len(), 10);
}

#[test]
fn episode_is_wanted_when_both_numbers_are_known() {
    assert_eq!(wanted_episode(Some(1), Some(5)), Some((1, 5)));
    assert_eq!(wanted_episode(Some(1), None), None);
    assert_eq!(wanted_episode(None, Some(5)), None);
    assert_eq!(wanted_episode(None, None), None);
}

#[test]
fn omdb_address() {
    assert_eq!(
        lookup_url("KEY", "Movie Name", Some(2024)),
        "https://www.omdbapi.com/?apikey=KEY&t=Movie%20Name&type=movie&plot=full&y=2024"
    );
    assert_eq!(
        lookup_url("KEY", "X", None),
        "https://www.omdbapi.com/?apikey=KEY&t=X&type=movie&plot=full"
    );
}

fn answer() -> OmdbResult {
    OmdbResult {
        response: "True".to_string(),
        title: some("Inception"),
        year: some("2010"),
        plot: some("Dreams"),
        genre: some("Action, Sci-Fi"),
        runtime: some("148 min"),
        imdb_rating: some("8.8"),
        imdb_votes: some("2,000,000"),
        imdb_id: some("tt1375666"),
        released: some("16 Jul 2010"),
        director: some("Christopher Nolan"),
        actors: some("Leonardo DiCaprio, Elliot Page"),
        language: some("English"),
        poster: some("https://img/p.jpg"),
        production: some("Warner"),
    }
}

#[test]
fn omdb_record_from_answer() {
    let r = omdb_metadata(answer(), "now".to_string()).unwrap();
    assert_eq!(r.poster_url, some("https://img/p.jpg"));
    let mut want = bare_metadata("Inception".to_string(), "omdb", "now".to_string());
    want.year = Some(2010);
    want.overview = some("Dreams");
    want.genres = vec!["Action".to_string(), "Sci-Fi".to_string()];
    want.runtime_minutes = Some(148);
    want.rating = some("8.8");
    want.vote_count = Some(2_000_000);
    want.release_date = some("16 Jul 2010");
    want.imdb_id = some("tt1375666");
    want.cast = vec![
        CastMember { name: "Leonardo DiCaprio".to_string(), character: None, profile_path: None },
        CastMember { name: "Elliot Page".to_string(), character: None, profile_path: None },
    ];
    want.crew = vec![CrewMember {
        name: "Christopher Nolan".to_string(),
        job: some("Director"),
        profile_path: None,
    }];
    want.studios = vec!["Warner".to_string()];
    want.language = some("English");
    assert_eq!(r.metadata, want);
}

#[test]
fn omdb_unknown_fields() {
    let mut a = answer();
    a.year = some("2019\u{2013}2023");
    a.runtime = some("N/A");
    a.imdb_votes = some("N/A");
    a.released = some("N/A");
    a.language = some("N/A");
    a.poster = some("N/A");
    a.production = some("N/A");
    a.genre = None;
    a.actors = None;
    a.director = None;
    a.title = None;
    let r = omdb_metadata(a, "now".to_string()).unwrap();
    assert_eq!(r.poster_url, None);
    let m = r.metadata;
    assert_eq!(m.title, "");
    assert_eq!(m.year, Some(2019));
    assert_eq!(m.runtime_minutes, None);
    assert_eq!(m.vote_count, None);
    assert_eq!(m.release_date, None);
    assert_eq!(m.language, None);
    assert!(m.studios.is_empty());
    assert!(m.genres.is_empty());
    assert!(m.cast.is_empty());
    assert!(m.crew.is_empty());
    assert_eq!(m.provider, "omdb");
}

#[test]
fn omdb_runtime_is_read_leniently() {
    let mut a = answer();
    a.runtime = some(" 90 min ");
    assert_eq!(omdb_metadata(a, "t".to_string()).unwrap().metadata.runtime_minutes, Some(90));
    let mut a = answer();
    a.runtime = some("1 h 30 min");
    assert_eq!(omdb_metadata(a, "t".to_string()).unwrap().metadata.runtime_minutes, None);
}

#[test]
fn omdb_answer_that_found_nothing() {
    let mut a = answer();
    a.response = "False".to_string();
    assert_eq!(omdb_metadata(a, "now".to_string()), None);
    let mut a = answer();
    a.response = "true".to_string();
    assert_eq!(omdb_metadata(a, "now".to_string()), None);
}
