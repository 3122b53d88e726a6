use ottobangumi::mikan::mikan_parser::{
    id_from_rss_url, parse_id_number, poster_from_style, week_day_from_line, BangumiInfo,
    MikanError, MikanParser,
};

const SERIES_PAGE: &str = r#"<!DOCTYPE html>
<html>
<head><title>page</title></head>
<body>
  <div class="bangumi-poster" style="background-image: url('/images/Bangumi/202101/2acbca31.jpg?width=400&height=560&format=webp');"></div>
  <p class="bangumi-title">
    无职转生～到了异世界就拿出真本事～ <a href="/RSS/Bangumi?bangumiId=2353" class="mikan-rss"><i></i></a>
  </p>
  <p class="bangumi-info">官方网站：<a href="https://example.org">example</a></p>
  <p class="bangumi-info">放送日期：星期日</p>
  <p class="bangumi-info">放送日期：星期一</p>
</body>
</html>"#;

const EPISODE_PAGE: &str = r#"<html><body>
  <p class="bangumi-title"><a href="/Home/Bangumi/3330">狼与香辛料 行商邂逅贤狼</a>
     <a class="mikan-rss" href="/RSS/Bangumi?bangumiId=3330&subgroupid=583"></a></p>
  <a class="episode-btn" href="/Download/x.torrent">torrent</a>
  <a class="episode-btn">nothing</a>
  <a class="episode-btn" href="magnet:?xt=urn:btih:abcdef&tr=x">magnet</a>
  <a class="episode-btn" href="magnet:?xt=urn:btih:second">magnet</a>
</body></html>"#;

fn reader() -> MikanParser {
    MikanParser::new().unwrap()
}

#[test]
fn series_page_is_read() {
    let info = reader().parse_document(SERIES_PAGE).unwrap();
    assert_eq!(
        info,
        BangumiInfo {
            id: 2353,
            title: "无职转生～到了异世界就拿出真本事～".to_string(),
            weekday: 7,
            poster_url: "https://mikanani.me/images/Bangumi/202101/2acbca31.jpg".to_string(),
            magnet: None,
        }
    );
}

#[test]
fn parts_of_a_page() {
    let r = reader();
    assert_eq!(r.parse_id(SERIES_PAGE), Ok(2353));
    assert_eq!(r.parse_title(SERIES_PAGE).unwrap(), "无职转生～到了异世界就拿出真本事～");
    assert_eq!(r.parse_week_day(SERIES_PAGE), Ok(7));
    assert_eq!(
        r.parse_poster_url(SERIES_PAGE).unwrap(),
        "https://mikanani.me/images/Bangumi/202101/2acbca31.jpg"
    );
    assert_eq!(r.parse_magnet(SERIES_PAGE), Err(MikanError::MagnetNotFound));
    assert_eq!(r.parse_id(EPISODE_PAGE), Ok(3330));
    assert_eq!(r.parse_title(EPISODE_PAGE).unwrap(), "狼与香辛料 行商邂逅贤狼");
    assert_eq!(r.parse_magnet(EPISODE_PAGE).unwrap(), "magnet:?xt=urn:btih:abcdef&tr=x");
    assert_eq!(r.parse_week_day(EPISODE_PAGE), Err(MikanError::WeekDayNotFound));
    assert_eq!(r.parse_poster_url(EPISODE_PAGE), Err(MikanError::PosterNotFound));
}

#[test]
fn missing_parts_are_told_in_order() {
    let r = reader();
    assert_eq!(r.parse_document(""), Err(MikanError::IdNotFound));
    assert_eq!(r.parse_document("<p class='bangumi-title'>t</p>"), Err(MikanError::IdNotFound));
    assert_eq!(
        r.parse_document("<a class='mikan-rss' href='?bangumiId=5'></a>"),
        Err(MikanError::TitleNotFound)
    );
    assert_eq!(
        r.parse_document("<a class='mikan-rss' href='?bangumiId=5'></a><p class='bangumi-title'>t</p>"),
        Err(MikanError::PosterNotFound)
    );
    assert_eq!(
        r.parse_document(
            "<a class='mikan-rss' href='?bangumiId=5'></a><p class='bangumi-title'>t</p>\
             <div class='bangumi-poster' style=\"url('/p.jpg')\"></div>"
        ),
        Err(MikanError::WeekDayNotFound)
    );
    assert_eq!(r.parse_document(EPISODE_PAGE), Err(MikanError::PosterNotFound));
}

#[test]
fn id_of_a_link() {
    let r = reader();
    assert_eq!(r.id_from_link("/RSS/Bangumi?bangumiId=3141&subgroupid=583"), Ok(3141));
    assert_eq!(r.id_from_link("bangumiId=x bangumiId=12"), Ok(12));
    assert_eq!(r.id_from_link("bangumiId=4294967295"), Ok(4294967295));
    assert_eq!(r.id_from_link("bangumiId=4294967296"), Err(MikanError::ParseError));
    assert_eq!(r.id_from_link("bangumiId=１２"), Err(MikanError::ParseError));
    assert_eq!(r.id_from_link("bangumiId="), Err(MikanError::IdNotFound));
    assert_eq!(r.id_from_link("bangumiid=12"), Err(MikanError::IdNotFound));
    assert_eq!(r.id_from_link(""), Err(MikanError::IdNotFound));
    assert_eq!(
        r.parse_id("<a class='mikan-rss'></a><a class='mikan-rss' href='bangumiId=1'></a>"),
        Err(MikanError::IdNotFound)
    );
}

#[test]
fn page_of_another_series_is_an_error() {
    let r = reader();
    assert_eq!(r.from_id(SERIES_PAGE, 2353).unwrap().id, 2353);
    assert_eq!(r.from_id(SERIES_PAGE, 2354), Err(MikanError::ParseError));
    assert_eq!(r.from_id("", 1), Err(MikanError::IdNotFound));
}

#[test]
fn episode_page_gives_id_and_magnet() {
    let r = reader();
    assert_eq!(
        r.from_url(EPISODE_PAGE, "https://mikanani.me/Home/Episode/72d528cc"),
        Ok((3330, Some("magnet:?xt=urn:btih:abcdef&tr=x".to_string())))
    );
    assert_eq!(r.from_url(EPISODE_PAGE, "https://mikanani.me/Home/Bangumi/3330"), Ok((3330, None)));
    assert_eq!(
        r.from_url(SERIES_PAGE, "https://mikanani.me/Home/Episode/72d528cc"),
        Err(MikanError::MagnetNotFound)
    );
    assert_eq!(r.from_url("", "https://mikanani.me/Home/Episode/7"), Err(MikanError::IdNotFound));
}

#[test]
fn id_in_the_address_of_a_feed() {
    assert_eq!(
        id_from_rss_url("https://mikanani.me/RSS/Bangumi?bangumiId=3141&subgroupid=583"),
        Ok(3141)
    );
    assert_eq!(id_from_rss_url("https://host/RSS?x=1&bangumiId=7"), Ok(7));
    assert_eq!(id_from_rss_url("bangumiId=7=8&bangumiId=9"), Ok(7));
    assert_eq!(id_from_rss_url("??&&bangumiId=+7"), Ok(7));
    assert_eq!(id_from_rss_url("https://host/RSS?bangumiId=&x"), Err(MikanError::ParseError));
    assert_eq!(id_from_rss_url("https://host/RSS?bangumiId=abc"), Err(MikanError::ParseError));
    assert_eq!(id_from_rss_url("https://host/RSS?bangumiId=-1"), Err(MikanError::ParseError));
    assert_eq!(
        id_from_rss_url("https://host/RSS?bangumiId=4294967296"),
        Err(MikanError::ParseError)
    );
    assert_eq!(id_from_rss_url("https://host/RSS?xbangumiId=3"), Err(MikanError::IdNotFound));
    assert_eq!(id_from_rss_url("https://host/RSS"), Err(MikanError::IdNotFound));
    assert_eq!(id_from_rss_url(""), Err(MikanError::IdNotFound));
}

#[test]
fn id_numbers_agree_with_std() {
    let samples = ["0", "7", "007", "+7", "4294967295", "4294967296", "", "+", "-7", "7 ", "1e3", "٣"];
    for s in samples {
        assert_eq!(parse_id_number(s).ok(), s.parse::<u32>().ok(), "{:?}", s);
    }
}

#[test]
fn poster_is_what_the_style_quotes() {
    assert_eq!(
        poster_from_style("background-image: url('/images/a.jpg?width=400');").unwrap(),
        "https://mikanani.me/images/a.jpg"
    );
    assert_eq!(poster_from_style("url('/images/a.jpg').").unwrap(), "https://mikanani.me/images/a.jpg");
    assert_eq!(poster_from_style("url('/images/a.jpg").unwrap(), "https://mikanani.me/images/a.jpg");
    assert_eq!(poster_from_style("'").unwrap(), "https://mikanani.me");
    assert_eq!(poster_from_style("'?x'").unwrap(), "https://mikanani.me");
    assert_eq!(poster_from_style("url(/images/a.jpg)"), Err(MikanError::PosterNotFound));
    assert_eq!(poster_from_style(""), Err(MikanError::PosterNotFound));
}

#[test]
fn day_is_named_by_the_last_character() {
    assert_eq!(week_day_from_line("放送日期：星期一"), Ok(1));
    assert_eq!(week_day_from_line("放送日期：星期二"), Ok(2));
    assert_eq!(week_day_from_line("放送日期：星期三"), Ok(3));
    assert_eq!(week_day_from_line("放送日期：星期四"), Ok(4));
    assert_eq!(week_day_from_line("放送日期：星期五"), Ok(5));
    assert_eq!(week_day_from_line("放送日期：星期六"), Ok(6));
    assert_eq!(week_day_from_line("放送日期：星期日"), Ok(7));
    assert_eq!(week_day_from_line("日"), Ok(7));
    assert_eq!(week_day_from_line("放送日期：星期日 "), Err(MikanError::WeekDayNotFound));
    assert_eq!(week_day_from_line("放送日期：剧场版"), Err(MikanError::WeekDayNotFound));
    assert_eq!(week_day_from_line(""), Err(MikanError::WeekDayNotFound));
}

#[test]
fn page_errors_in_words() {
    assert_eq!(MikanError::ParseError.message(), "Parse error");
    assert_eq!(MikanError::TitleNotFound.message(), "Title not found");
    assert_eq!(MikanError::IdNotFound.message(), "Id not found");
    assert_eq!(MikanError::PosterNotFound.message(), "Poster not found");
    assert_eq!(MikanError::WeekDayNotFound.message(), "Week day not found");
    assert_eq!(MikanError::MagnetNotFound.message(), "Magnet not found");
}
