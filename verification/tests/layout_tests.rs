use nordtui::layout::{popup, split_rect, status_regions, Constraint, Direction, Rect, Ui};

fn frame() -> Rect {
    Rect { x: 0, y: 0, width: 120, height: 30 }
}

#[test]
fn root_regions_tile_the_frame() {
    let ui = Ui::init(frame());
    let title = ui.get_title();
    let footer = ui.get_footer();
    assert_eq!(title, Rect { x: 0, y: 0, width: 120, height: 2 });
    assert_eq!(footer, Rect { x: 0, y: 28, width: 120, height: 2 });
}

#[test]
fn body_columns_centre_the_content() {
    let ui = Ui::init(frame());
    let header = ui.get_header();
    // the body row is 26 tall; the fillers leave a 60-wide centred column,
    // and the header takes its capped 12 rows
    assert_eq!(header, Rect { x: 30, y: 2, width: 60, height: 12 });
}

#[test]
fn detail_columns_split_half_and_half() {
    let ui = Ui::init(frame());
    let country = ui.get_country();
    let city = ui.get_city();
    assert_eq!(country, Rect { x: 30, y: 14, width: 30, height: 14 });
    assert_eq!(city, Rect { x: 60, y: 14, width: 30, height: 14 });
    assert_eq!(country.width + city.width, 60);
}

#[test]
fn fixed_rows_keep_their_height_on_a_big_frame() {
    let ui = Ui::init(Rect { x: 5, y: 7, width: 200, height: 60 });
    let title = ui.get_title();
    let footer = ui.get_footer();
    assert_eq!(title.height, 2);
    assert_eq!(footer.height, 2);
    assert_eq!(title.y, 7);
    assert_eq!(footer.y, 7 + 60 - 2);
}

#[test]
fn too_small_frame_degenerates_without_panic() {
    let ui = Ui::init(Rect { x: 0, y: 0, width: 10, height: 3 });
    let title = ui.get_title();
    let footer = ui.get_footer();
    assert_eq!(title.height, 2);
    assert_eq!(footer.height, 1);
    let _ = ui.get_header();
    let _ = ui.get_country();
    let _ = ui.get_city();
}

#[test]
fn popup_is_centred_with_the_wanted_size() {
    let overlay = popup(55, 18, frame());
    assert_eq!(overlay, Rect { x: 32, y: 6, width: 55, height: 18 });
}

#[test]
fn status_regions_lay_out_the_seven_boxes() {
    let header = Rect { x: 30, y: 2, width: 60, height: 12 };
    let regions = status_regions(header);
    assert_eq!(regions.status_line, Rect { x: 30, y: 2, width: 60, height: 3 });
    assert_eq!(regions.country, Rect { x: 30, y: 5, width: 30, height: 3 });
    assert_eq!(regions.city, Rect { x: 30, y: 8, width: 30, height: 3 });
    assert_eq!(regions.uptime, Rect { x: 30, y: 11, width: 30, height: 3 });
    assert_eq!(regions.ip, Rect { x: 60, y: 5, width: 30, height: 3 });
    assert_eq!(regions.download, Rect { x: 60, y: 8, width: 30, height: 3 });
    assert_eq!(regions.upload, Rect { x: 60, y: 11, width: 30, height: 3 });
}

#[test]
fn percentage_and_ratio_constraints_behave() {
    let area = Rect { x: 0, y: 0, width: 100, height: 10 };
    let halves = split_rect(area, Direction::Horizontal, &vec![
        Constraint::Percentage(50),
        Constraint::Percentage(50),
    ]);
    assert_eq!(halves[0].width, 50);
    assert_eq!(halves[1].width, 50);
    let thirds = split_rect(area, Direction::Horizontal, &vec![
        Constraint::Ratio(1, 4),
        Constraint::Fill(1),
    ]);
    assert_eq!(thirds[0].width, 25);
    assert_eq!(thirds[1].width, 75);
}
