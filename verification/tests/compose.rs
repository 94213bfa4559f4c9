use rameau::chords::chord::Cadence;
use rameau::chords::grammar::StockProgression;
use rameau::compose::form::{entry_order, role_of};
use rameau::compose::idea::{IdeaKind, default_schema, is_zero_i32, is_zero_i8};
use rameau::compose::instrument::Role;
use rameau::compose::state::{FormKind, Phase};
use rameau::kern::{ParseError, Tie};
use rameau::playback::PlaybackError;

#[test]
fn entry_orders() {
    assert_eq!(entry_order(3), vec![(1, false), (0, true), (2, false)]);
    assert_eq!(entry_order(4).len(), 4);
}

#[test]
fn entry_orders_for_every_size() {
    assert_eq!(entry_order(0), vec![(0, false)]);
    assert_eq!(entry_order(2), vec![(0, false), (1, true)]);
    assert_eq!(entry_order(4), vec![(1, false), (0, true), (3, false), (2, true)]);
    assert_eq!(
        entry_order(6),
        vec![(1, false), (0, true), (2, false), (3, true), (4, false), (5, true)]
    );
}

#[test]
fn roles_by_position() {
    assert_eq!(role_of(0, 1), Role::Lead);
    assert_eq!(role_of(0, 3), Role::Lead);
    assert_eq!(role_of(1, 3), Role::Inner);
    assert_eq!(role_of(2, 3), Role::Bass);
}

#[test]
fn phases_and_forms_by_name() {
    for p in Phase::ALL {
        assert_eq!(Phase::parse(p.name()), Some(p));
    }
    assert_eq!(Phase::parse("  RIOT\n"), Some(Phase::Riot));
    assert_eq!(Phase::parse("rioting"), None);
    for f in FormKind::ALL {
        assert_eq!(FormKind::parse(f.name()), Some(f));
    }
    assert_eq!(FormKind::parse(" Contredanse "), Some(FormKind::Contredanse));
    assert_eq!(FormKind::parse("sonata"), None);
    assert_eq!(Phase::default(), Phase::Recruit);
}

#[test]
fn idea_vocabulary() {
    assert_eq!(IdeaKind::Countersubject.dir(), "countersubjects");
    assert_eq!(IdeaKind::ALL.map(|k| k.dir()), ["motifs", "grounds", "subjects", "countersubjects", "rhythms"]);
    assert_eq!(default_schema(), "peasantide-idea/2");
    assert!(is_zero_i8(&0) && !is_zero_i8(&-1));
    assert!(is_zero_i32(&0) && !is_zero_i32(&7));
}

#[test]
fn cadences_and_progressions() {
    assert!(Cadence::Authentic.closes());
    assert!(Cadence::Plagal.closes());
    assert!(!Cadence::Half.closes());
    assert!(!Cadence::Deceptive.closes());
    assert_eq!(Cadence::default(), Cadence::Authentic);
    assert_eq!(StockProgression::PassamezzoModerno.name(), "passamezzo moderno");
    let minor: Vec<_> = StockProgression::ALL.into_iter().filter(|p| p.prefers_minor()).collect();
    assert_eq!(
        minor,
        vec![
            StockProgression::Folia,
            StockProgression::PassamezzoAntico,
            StockProgression::LamentTetrachord
        ]
    );
}

#[test]
fn error_messages() {
    assert_eq!(ParseError::NoKernSpine.message(), "no **kern spine in file");
    assert_eq!(PlaybackError::Unsupported("render").message(), "unsupported by backend: render");
    assert_eq!(PlaybackError::Decode("bad".into()).message(), "decode error: bad");
    assert_eq!(PlaybackError::Backend("gone".into()).message(), "audio backend error: gone");
    assert_eq!(Tie::default(), Tie::Untied);
}
