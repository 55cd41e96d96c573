use nordtui::nord;
use nordtui::nord::NordList;

const NOISE: &str = "\r-\r  \r\r-\r  \r";

#[test]
fn clean_string_strips_noise_and_newlines() {
    let raw = format!("{}Spain\n", NOISE);
    assert_eq!(nord::clean_string(&raw), "Spain");
}

#[test]
fn clean_string_leaves_plain_text_alone() {
    assert_eq!(nord::clean_string("France"), "France");
    assert_eq!(nord::clean_string(""), "");
}

#[test]
fn str_to_vec_splits_in_literal_order() {
    let tokens = nord::str_to_vec("Spain, France, Germany".to_string(), ", ".to_string());
    assert_eq!(tokens, vec!["Spain", "France", "Germany"]);
}

#[test]
fn str_to_vec_without_separator_is_one_token() {
    let tokens = nord::str_to_vec("Spain".to_string(), ", ".to_string());
    assert_eq!(tokens, vec!["Spain"]);
}

#[test]
fn extract_string_takes_first_matching_line_and_drops_label() {
    let text = "Status: Connected\nCountry: Spain\nCity: Madrid";
    assert_eq!(nord::extract_string(text, "Country: "), "Spain");
    assert_eq!(nord::extract_string(text, "City: "), "Madrid");
}

#[test]
fn extract_string_missing_label_yields_empty() {
    let text = "Status: Connected";
    assert_eq!(nord::extract_string(text, "Uptime: "), "");
}

#[test]
fn parse_output_strips_banner_preamble() {
    let with_banner = "A new version of NordVPN is available.Spain, France.please update";
    assert_eq!(nord::parse_output(with_banner.to_string()), "Spain, France");
}

#[test]
fn parse_output_without_banner_is_identity() {
    let plain = "Spain, France, Germany";
    assert_eq!(nord::parse_output(plain.to_string()), plain);
}

#[test]
fn parse_output_banner_without_period_yields_empty() {
    assert_eq!(nord::parse_output("NordVPN".to_string()), "");
}

#[test]
fn uptime_is_compacted_to_clock_form() {
    let text = "Status: Connected\nUptime: 1 hours 30 minutes 5 seconds";
    let status = nord::get_status(text);
    assert_eq!(status.uptime, "1:30:5");
}

#[test]
fn uptime_with_only_minutes_and_seconds_still_strips() {
    let text = "Uptime: 30 minutes 5 seconds";
    let status = nord::get_status(text);
    assert_eq!(status.uptime, "30:5");
}

#[test]
fn uptime_missing_line_yields_empty_not_a_crash() {
    let status = nord::get_status("Status: Disconnected");
    assert_eq!(status.uptime, "");
}

#[test]
fn transfer_line_is_split_into_down_and_up() {
    let text = "Transfer: 1.2 GiB received, 500 MiB sent";
    let status = nord::get_status(text);
    assert_eq!(status.transfer.down, "1.2 GiB");
    assert_eq!(status.transfer.up, "500 MiB");
}

#[test]
fn extract_transfer_reads_both_counters() {
    let transfer = nord::extract_transfer("1.2 GiB received\n500 MiB sent".to_string());
    assert_eq!(transfer.down, "1.2 GiB");
    assert_eq!(transfer.up, "500 MiB");
}

#[test]
fn get_status_reads_every_labelled_field() {
    let text = "Status: Connected\nIP: 192.0.2.10\nCountry: Spain\nCity: Madrid\n\
                Transfer: 1.2 GiB received, 500 MiB sent\nUptime: 2 hours 5 minutes 10 seconds\n";
    let status = nord::get_status(text);
    assert_eq!(status.status, "Connected");
    assert_eq!(status.ip, "192.0.2.10");
    assert_eq!(status.country, "Spain");
    assert_eq!(status.city, "Madrid");
    assert_eq!(status.transfer.down, "1.2 GiB");
    assert_eq!(status.transfer.up, "500 MiB");
    assert_eq!(status.uptime, "2:5:10");
}

#[test]
fn get_cities_cleans_each_token() {
    let raw = format!("Madrid, {}Barcelona\n", NOISE);
    let cities = nord::get_cities(&raw);
    assert_eq!(cities.len(), 2);
    assert_eq!(cities[0].name, "Madrid");
    assert_eq!(cities[1].name, "Barcelona");
}

#[test]
fn country_tokens_keeps_raw_tokens() {
    let raw = format!("Spain, {}France", NOISE);
    let tokens = nord::country_tokens(&raw);
    assert_eq!(tokens.len(), 2);
    assert_eq!(tokens[0], "Spain");
    assert_eq!(tokens[1], format!("{}France", NOISE));
}

#[test]
fn get_countries_pairs_cleaned_names_with_cities() {
    let tokens = vec![format!("{}Spain", NOISE), "France".to_string()];
    let cities = vec![
        vec![nord::City { name: "Madrid".to_string() }],
        vec![nord::City { name: "Paris".to_string() }, nord::City { name: "Lyon".to_string() }],
    ];
    let countries = nord::get_countries(&tokens, cities);
    assert_eq!(countries.len(), 2);
    assert_eq!(countries[0].name, "Spain");
    assert_eq!(countries[0].cities.len(), 1);
    assert_eq!(countries[0].cities[0].name, "Madrid");
    assert_eq!(countries[1].name, "France");
    assert_eq!(countries[1].cities.len(), 2);
}

#[test]
fn init_keeps_status_and_countries() {
    let status = nord::get_status("Status: Disconnected");
    let countries = vec![nord::Country { name: "Spain".to_string(), cities: vec![] }];
    let nordvalue = nord::init(status, countries);
    assert_eq!(nordvalue.status.status, "Disconnected");
    assert_eq!(nordvalue.countries.len(), 1);
    assert_eq!(nordvalue.countries[0].name, "Spain");
}

#[test]
fn get_country_finds_by_name() {
    let countries = vec![
        nord::Country { name: "Spain".to_string(), cities: vec![] },
        nord::Country { name: "France".to_string(), cities: vec![] },
    ];
    let nordvalue = nord::init(nord::get_status(""), countries);
    let found = nordvalue.get_country("France".to_string());
    assert_eq!(found.name, "France");
}

#[test]
fn refresh_status_replaces_status_wholesale() {
    let countries = vec![nord::Country { name: "Spain".to_string(), cities: vec![] }];
    let mut nordvalue = nord::init(nord::get_status("Status: Disconnected"), countries);
    nordvalue.refresh_status("Status: Connected\nCountry: Spain");
    assert_eq!(nordvalue.status.status, "Connected");
    assert_eq!(nordvalue.status.country, "Spain");
    assert_eq!(nordvalue.countries.len(), 1);
}

#[test]
fn names_come_from_the_list_trait() {
    let country = nord::Country { name: "Spain".to_string(), cities: vec![] };
    let city = nord::City { name: "Madrid".to_string() };
    assert_eq!(country.name(), "Spain");
    assert_eq!(city.name(), "Madrid");
}
