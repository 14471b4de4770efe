use envfmt::formatter::{DotEnv, PhpFpm};
use envfmt::params::{Param, ParamBag};

fn sample() -> Vec<Param> {
    vec![
        Param {
            key: "ALPHA".to_string(),
            value: "the".to_string(),
        },
        Param {
            key: "BETA".to_string(),
            value: "four".to_string(),
        },
        Param {
            key: "DELTA".to_string(),
            value: "test".to_string(),
        },
        Param {
            key: "GAMMA".to_string(),
            value: "strings".to_string(),
        },
    ]
}

#[test]
fn formats_as_dot_env() {
    let params = sample();

    let output = "ALPHA=\"the\"\nBETA=\"four\"\nDELTA=\"test\"\nGAMMA=\"strings\"";

    assert_eq!(output, DotEnv { params: &params }.render());
}

#[test]
fn formats_as_php_fpm() {
    let params = sample();

    let output =
        "env[ALPHA]=\"the\"\nenv[BETA]=\"four\"\nenv[DELTA]=\"test\"\nenv[GAMMA]=\"strings\"";

    assert_eq!(output, PhpFpm { params: &params }.render());
}

#[test]
fn formats_nothing_as_empty_text() {
    let params: Vec<Param> = Vec::new();

    assert_eq!("", DotEnv { params: &params }.render());
    assert_eq!("", PhpFpm { params: &params }.render());
}

#[test]
fn formats_single_param_without_line_feed() {
    let params = vec![Param {
        key: "ALPHA".to_string(),
        value: "the".to_string(),
    }];

    assert_eq!("ALPHA=\"the\"", DotEnv { params: &params }.render());
    assert_eq!("env[ALPHA]=\"the\"", PhpFpm { params: &params }.render());
}

#[test]
fn formats_from_a_bag() {
    let bag = ParamBag {
        prefix: "/app".to_string(),
        params: sample(),
        next: None,
    };

    assert_eq!(
        "ALPHA=\"the\"\nBETA=\"four\"\nDELTA=\"test\"\nGAMMA=\"strings\"",
        DotEnv::from(&bag).render()
    );
    assert_eq!(
        "env[ALPHA]=\"the\"\nenv[BETA]=\"four\"\nenv[DELTA]=\"test\"\nenv[GAMMA]=\"strings\"",
        PhpFpm::from(&bag).render()
    );
}

/// Reads back lines of the form `<open>KEY<middle>value<close>`.
fn reparse(text: &str, open: &str, middle: &str, close: &str) -> Vec<Param> {
    text.lines()
        .map(|line| {
            let line = line.strip_prefix(open).unwrap();
            let line = line.strip_suffix(close).unwrap();
            let (key, value) = line.split_once(middle).unwrap();
            Param {
                key: key.to_string(),
                value: value.to_string(),
            }
        })
        .collect()
}

#[test]
fn dot_env_round_trip() {
    let params = vec![Param {
        key: "ALPHA".to_string(),
        value: "the".to_string(),
    }];

    let text = DotEnv { params: &params }.render();

    assert_eq!(params, reparse(&text, "", "=\"", "\""));
}

#[test]
fn php_fpm_round_trip() {
    let params = vec![Param {
        key: "ALPHA".to_string(),
        value: "the".to_string(),
    }];

    let text = PhpFpm { params: &params }.render();

    assert_eq!(params, reparse(&text, "env[", "]=\"", "\""));
}

#[test]
fn round_trip_keeps_order_of_several_params() {
    let params = sample();

    assert_eq!(
        params,
        reparse(&DotEnv { params: &params }.render(), "", "=\"", "\"")
    );
    assert_eq!(
        params,
        reparse(&PhpFpm { params: &params }.render(), "env[", "]=\"", "\"")
    );
}
