use html2pdf::{Error, LaunchSettings, Margin, Options, PaperSize, PrintOptions};

fn options_with(paper: Option<PaperSize>, margin: Option<Margin>) -> Options {
    Options {
        input: String::from("page.html"),
        output: None,
        landscape: false,
        background: false,
        wait: None,
        header: None,
        footer: None,
        paper,
        scale: None,
        range: None,
        margin,
        disable_sandbox: false,
    }
}

#[test]
fn should_parse_valid_paper_size() {
    assert_eq!(PaperSize::from_str("a0").unwrap(), PaperSize::A0);
    assert_eq!(PaperSize::from_str("A1").unwrap(), PaperSize::A1);
    assert_eq!(PaperSize::from_str("A2").unwrap(), PaperSize::A2);
    assert_eq!(PaperSize::from_str("A3").unwrap(), PaperSize::A3);
    assert_eq!(PaperSize::from_str("A4").unwrap(), PaperSize::A4);
    assert_eq!(PaperSize::from_str("A5").unwrap(), PaperSize::A5);
    assert_eq!(PaperSize::from_str("A6").unwrap(), PaperSize::A6);
    assert_eq!(PaperSize::from_str("letter").unwrap(), PaperSize::Letter);
    assert_eq!(PaperSize::from_str("Legal").unwrap(), PaperSize::Legal);
    assert_eq!(PaperSize::from_str("Tabloid").unwrap(), PaperSize::Tabloid);
}

#[test]
fn should_reject_invalid_paper_size() {
    let value = "plop";
    let result = PaperSize::from_str(value);
    assert!(matches!(result, Err(Error::InvalidPaperSize { .. })));
}

#[test]
fn should_parse_valid_margin_all() {
    let value = "0.4";
    let result = Margin::from_str(value);
    assert!(matches!(result, Ok(Margin::All(_))));
    assert_eq!(result.unwrap(), Margin::All(400_000));
}

#[test]
fn should_parse_valid_margin_vh() {
    let value = "0.4  0.7";
    let result = Margin::from_str(value);
    assert!(matches!(result, Ok(Margin::VerticalHorizontal(_, _))));
    assert_eq!(result.unwrap(), Margin::VerticalHorizontal(400_000, 700_000));
}

#[test]
fn should_parse_valid_margin_trbl() {
    let value = "0.2   0.3 0.4  0.5";
    let result = Margin::from_str(value);
    assert!(matches!(result, Ok(Margin::TopRightBottomLeft(_, _, _, _))));
    assert_eq!(
        result.unwrap(),
        Margin::TopRightBottomLeft(200_000, 300_000, 400_000, 500_000)
    );
}

#[test]
fn should_reject_invalid_margin() {
    let value = "0.2    0.3  0.4";
    let result = Margin::from_str(value);
    assert!(matches!(result, Err(Error::InvalidMarginDefinition { .. })));
}

#[test]
fn should_reject_invalid_margin_value() {
    let value = "plop";
    let result = Margin::from_str(value);
    assert!(matches!(result, Err(Error::InvalidMarginValue(_))));
}

#[test]
fn margin_sides_resolve_by_form() {
    let all = Margin::All(400_000);
    assert_eq!(all.margin_top(), 400_000);
    assert_eq!(all.margin_right(), 400_000);
    assert_eq!(all.margin_bottom(), 400_000);
    assert_eq!(all.margin_left(), 400_000);

    let vh = Margin::VerticalHorizontal(400_000, 700_000);
    assert_eq!(vh.margin_top(), 400_000);
    assert_eq!(vh.margin_right(), 700_000);
    assert_eq!(vh.margin_bottom(), 400_000);
    assert_eq!(vh.margin_left(), 700_000);

    let four = Margin::TopRightBottomLeft(100_000, 200_000, 300_000, 400_000);
    assert_eq!(four.margin_top(), 100_000);
    assert_eq!(four.margin_right(), 200_000);
    assert_eq!(four.margin_bottom(), 300_000);
    assert_eq!(four.margin_left(), 400_000);
}

#[test]
fn paper_dimensions_are_exact() {
    assert_eq!(PaperSize::A0.paper_width(), 33_100_000);
    assert_eq!(PaperSize::A0.paper_height(), 46_800_000);
    assert_eq!(PaperSize::A4.paper_width(), 8_270_000);
    assert_eq!(PaperSize::A4.paper_height(), 11_700_000);
    assert_eq!(PaperSize::Letter.paper_width(), 8_500_000);
    assert_eq!(PaperSize::Letter.paper_height(), 11_000_000);
    assert_eq!(PaperSize::Legal.paper_width(), 8_500_000);
    assert_eq!(PaperSize::Legal.paper_height(), 17_000_000);
    assert_eq!(PaperSize::Tabloid.paper_width(), 11_000_000);
    assert_eq!(PaperSize::Tabloid.paper_height(), 17_000_000);
}

#[test]
fn print_options_resolve_paper_and_margin() {
    let opt = options_with(
        Some(PaperSize::A4),
        Some(Margin::VerticalHorizontal(400_000, 700_000)),
    );
    let print = PrintOptions::from_options(&opt);
    assert_eq!(print.landscape, Some(false));
    assert_eq!(print.display_header_footer, Some(false));
    assert_eq!(print.print_background, Some(false));
    assert_eq!(print.scale, None);
    assert_eq!(print.paper_width, Some(8_270_000));
    assert_eq!(print.paper_height, Some(11_700_000));
    assert_eq!(print.margin_top, Some(400_000));
    assert_eq!(print.margin_bottom, Some(400_000));
    assert_eq!(print.margin_left, Some(700_000));
    assert_eq!(print.margin_right, Some(700_000));
    assert_eq!(print.page_ranges, None);
    assert_eq!(print.header_template, None);
    assert_eq!(print.footer_template, None);
}

#[test]
fn print_options_show_header_when_only_footer_given() {
    let mut opt = options_with(None, None);
    opt.footer = Some(String::from("<span class=pageNumber></span>"));
    opt.landscape = true;
    opt.background = true;
    opt.scale = Some(800_000);
    opt.range = Some(String::from("1-5, 8, 11-13"));
    let print = PrintOptions::from_options(&opt);
    assert_eq!(print.landscape, Some(true));
    assert_eq!(print.display_header_footer, Some(true));
    assert_eq!(print.print_background, Some(true));
    assert_eq!(print.scale, Some(800_000));
    assert_eq!(print.paper_width, None);
    assert_eq!(print.paper_height, None);
    assert_eq!(print.margin_top, None);
    assert_eq!(print.page_ranges, Some(String::from("1-5, 8, 11-13")));
    assert_eq!(print.header_template, None);
    assert_eq!(
        print.footer_template,
        Some(String::from("<span class=pageNumber></span>"))
    );
}

#[test]
fn launch_settings_default_the_idle_timeout() {
    let opt = options_with(None, None);
    let launch = LaunchSettings::from_options(&opt);
    assert!(launch.sandbox);
    assert_eq!(launch.idle_timeout_ms, 30_000);

    let mut opt = options_with(None, None);
    opt.wait = Some(1_500);
    opt.disable_sandbox = true;
    let launch = LaunchSettings::from_options(&opt);
    assert!(!launch.sandbox);
    assert_eq!(launch.idle_timeout_ms, 1_500);
}

#[test]
fn accessors_hand_the_fields_back() {
    let mut opt = options_with(Some(PaperSize::A5), Some(Margin::All(250_000)));
    opt.output = Some(String::from("out.pdf"));
    opt.header = Some(String::from("<h1>head</h1>"));
    opt.wait = Some(250);
    assert_eq!(opt.input(), "page.html");
    assert_eq!(opt.output(), Some(&String::from("out.pdf")));
    assert!(!opt.landscape());
    assert!(!opt.background());
    assert_eq!(opt.wait(), Some(250));
    assert_eq!(opt.header(), Some(&String::from("<h1>head</h1>")));
    assert_eq!(opt.footer(), None);
    assert_eq!(opt.paper(), Some(&PaperSize::A5));
    assert_eq!(opt.scale(), None);
    assert_eq!(opt.margin(), Some(&Margin::All(250_000)));
    assert_eq!(opt.range(), None);
    assert!(!opt.disable_sandbox());
}

#[test]
fn error_messages_name_the_rejected_value() {
    let err = Error::InvalidPaperSize {
        size: String::from("plop"),
    };
    assert_eq!(
        err.message(),
        "Invalid paper size plop, expected a value in A4, Letter, A3, Tabloid, A2, A1, A0, A5, A6"
    );
    let err = Error::InvalidMarginDefinition {
        margin: String::from("0.2 0.3 0.4"),
    };
    assert_eq!(
        err.message(),
        "Invalid margin definition, expected 1, 2, or 4 value, got 0.2 0.3 0.4"
    );
    let err = Error::InvalidMarginValue(String::from("plop"));
    assert_eq!(err.message(), "Invalid margin value: plop");
    let err = Error::HeadlessChromeError(String::from("tab crashed"));
    assert_eq!(
        err.message(),
        "Oops, an error occurs with headless chrome: tab crashed"
    );
    let err = Error::IoError(String::from("file not found"));
    assert_eq!(err.message(), "file not found");
}
