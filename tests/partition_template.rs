use wal::partition_template::{
    test_table_partition_override, NamespacePartitionTemplateOverride, TablePartitionTemplateOverride,
    TemplatePart,
};
use wal::proto;

#[test]
fn test_default_template_fixture() {
    let ns = NamespacePartitionTemplateOverride::default();
    let table = TablePartitionTemplateOverride::new(None, &ns);
    let got = table.parts();
    assert!(matches!(got.as_slice(), [TemplatePart::TimeFormat("%Y-%m-%d")]));
}

#[test]
fn no_custom_table_template_specified_gets_namespace_template() {
    let namespace_template = NamespacePartitionTemplateOverride::from(proto::PartitionTemplate {
        parts: vec![proto::TemplatePart {
            part: Some(proto::Part::TimeFormat("year-%Y".into())),
        }],
    });
    let table_template = TablePartitionTemplateOverride::new(None, &namespace_template);

    assert_eq!(table_template.0, namespace_template.0);
}

#[test]
fn custom_table_template_specified_ignores_namespace_template() {
    let custom_table_template = proto::PartitionTemplate {
        parts: vec![proto::TemplatePart {
            part: Some(proto::Part::TagValue("region".into())),
        }],
    };
    let namespace_template = NamespacePartitionTemplateOverride::from(proto::PartitionTemplate {
        parts: vec![proto::TemplatePart {
            part: Some(proto::Part::TimeFormat("year-%Y".into())),
        }],
    });
    let table_template = TablePartitionTemplateOverride::new(
        Some(custom_table_template.clone()),
        &namespace_template,
    );

    assert_eq!(&table_template.0, &custom_table_template);
}

#[test]
fn unset_parts_are_skipped() {
    let t = TablePartitionTemplateOverride(proto::PartitionTemplate {
        parts: vec![
            proto::TemplatePart { part: Some(proto::Part::TagValue("region".into())) },
            proto::TemplatePart { part: None },
            proto::TemplatePart { part: Some(proto::Part::TimeFormat("%Y".into())) },
        ],
    });
    assert_eq!(t.parts(), vec![TemplatePart::TagValue("region"), TemplatePart::TimeFormat("%Y")]);
}

#[test]
fn override_built_from_parts() {
    let t = test_table_partition_override(vec![
        TemplatePart::TagValue("region"),
        TemplatePart::TimeFormat("year-%Y"),
    ]);
    assert_eq!(t.parts(), vec![TemplatePart::TagValue("region"), TemplatePart::TimeFormat("year-%Y")]);
    let empty = test_table_partition_override(vec![]);
    assert!(empty.parts().is_empty());
}

#[test]
fn table_default_is_by_day() {
    let t = TablePartitionTemplateOverride::default();
    assert_eq!(t.parts(), vec![TemplatePart::TimeFormat("%Y-%m-%d")]);
    let ns = NamespacePartitionTemplateOverride::default();
    assert_eq!(TablePartitionTemplateOverride::from_namespace(&ns), t);
}
