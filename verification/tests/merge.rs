use twin_sync::document::Document;
use twin_sync::merge::{merge_submodel_value_to_submodel, submodel_to_submodel_value};

fn to_document(value: &serde_json::Value) -> Document {
    match value {
        serde_json::Value::Null => Document::Null,
        serde_json::Value::Bool(b) => Document::Bool(*b),
        serde_json::Value::Number(n) => Document::Number(n.to_string()),
        serde_json::Value::String(s) => Document::Text(s.clone()),
        serde_json::Value::Array(items) => Document::Array(items.iter().map(to_document).collect()),
        serde_json::Value::Object(map) => {
            Document::Object(map.iter().map(|(k, v)| (k.clone(), to_document(v))).collect())
        }
    }
}

fn to_value(doc: &Document) -> serde_json::Value {
    match doc {
        Document::Null => serde_json::Value::Null,
        Document::Bool(b) => serde_json::Value::Bool(*b),
        Document::Number(n) => serde_json::from_str(n).unwrap(),
        Document::Text(s) => serde_json::Value::String(s.clone()),
        Document::Array(items) => serde_json::Value::Array(items.iter().map(to_value).collect()),
        Document::Object(entries) => serde_json::Value::Object(
            entries.iter().map(|(k, v)| (k.clone(), to_value(v))).collect(),
        ),
    }
}

fn parse(text: &str) -> serde_json::Value {
    serde_json::from_str(text).unwrap()
}

#[test]
fn test_submodel_to_submodel_value() {
    let submodel = parse(
        r#"{
  "modelType": "Submodel",
  "kind": "Instance",
  "id": "https://hilscher.com/ids/sm/9390_4160_0132_0940",
  "description": [
    {
      "language": "en",
      "text": "Providessome basic system information such as CPU type, CPU usage, installed memory size, memory usage, temperatures and others."
    }
  ],
  "idShort": "SystemInformation",
  "submodelElements": [
    {
      "modelType": "Property",
      "value": "NORMAL",
      "valueType": "xs:string",
      "description": [
        {
          "language": "en",
          "text": "Note: One out of the following NAMUR NE107 status: NORMAL, FAILURE, CHECK_FUNCTION, OFF_SPEC, MAINTENANCE_REQUIRED"
        }
      ],
      "idShort": "HealthStatus"
    },
    {
      "modelType": "Property",
      "valueType": "xs:dateTime",
      "description": [
        {
          "language": "en",
          "text": "Note: Timestamp of the last update"
        }
      ],
      "idShort": "LastUpdate"
    },
    {
      "modelType": "SubmodelElementCollection",
      "idShort": "Hardware",
      "value": [
        {
          "modelType": "SubmodelElementCollection",
          "idShort": "Processor",
          "value": [
            {
              "modelType": "Property",
              "value": "ARMv8",
              "valueType": "xs:string",
              "idShort": "CpuType"
            },
            {
              "modelType": "Property",
              "value": "4",
              "valueType": "xs:integer",
              "idShort": "CpuCores"
            },
            {
              "modelType": "Property",
              "value": "1.8 GHz",
              "valueType": "xs:string",
              "idShort": "CpuClock"
            },
            {
              "modelType": "Property",
              "value": "17 %",
              "valueType": "xs:string",
              "idShort": "CpuUsage"
            },
            {
              "modelType": "Property",
              "value": "55 °C",
              "valueType": "xs:string",
              "idShort": "CpuTemperature"
            }
          ]
        },
        {
          "modelType": "SubmodelElementCollection",
          "idShort": "Memory",
          "value": [
            {
              "modelType": "Property",
              "value": "2 GB",
              "valueType": "xs:string",
              "idShort": "RAMInstalled"
            },
            {
              "modelType": "Property",
              "value": "729 MB",
              "valueType": "xs:string",
              "idShort": "RAMFree"
            },
            {
              "modelType": "Property",
              "value": "17 GB",
              "valueType": "xs:string",
              "idShort": "DiskInstalled"
            },
            {
              "modelType": "Property",
              "value": "14.3 GB",
              "valueType": "xs:string",
              "idShort": "DiskFree"
            }
          ]
        },
        {
          "modelType": "Property",
          "value": "42 °C",
          "valueType": "xs:string",
          "idShort": "BoardTemperature"
        }
      ]
    }
  ]
}"#,
    );

    let expected_output = parse(
        r#"{
  "LastUpdate": null,
  "HealthStatus": "NORMAL",
  "Hardware": {
    "Processor": {
      "CpuClock": "1.8 GHz",
      "CpuCores": "4",
      "CpuTemperature": "55 °C",
      "CpuUsage": "17 %",
      "CpuType": "ARMv8"
    },
    "BoardTemperature": "42 °C",
    "Memory": {
      "RAMInstalled": "2 GB",
      "RAMFree": "729 MB",
      "DiskFree": "14.3 GB",
      "DiskInstalled": "17 GB"
    }
  }
}"#,
    );

    let result = to_value(&submodel_to_submodel_value(to_document(&submodel)));
    println!("Result:\n{}", serde_json::to_string_pretty(&result).unwrap());
    println!("Expected:\n{}", serde_json::to_string_pretty(&expected_output).unwrap());
    assert_eq!(result, expected_output);
}

#[test]
fn test_merge_recursive_object() {
    let submodel = parse(
        r#"{
  "modelType": "Submodel",
  "kind": "Instance",
  "id": "https://hilscher.com/ids/sm/9390_4160_0132_0940",
  "description": [
    {
      "language": "en",
      "text": "Providessome basic system information such as CPU type, CPU usage, installed memory size, memory usage, temperatures and others."
    }
  ],
  "idShort": "SystemInformation",
  "submodelElements": [
    {
      "modelType": "Property",
      "value": "NORMAL",
      "valueType": "xs:string",
      "description": [
        {
          "language": "en",
          "text": "Note: One out of the following NAMUR NE107 status: NORMAL, FAILURE, CHECK_FUNCTION, OFF_SPEC, MAINTENANCE_REQUIRED"
        }
      ],
      "idShort": "HealthStatus"
    },
    {
      "modelType": "Property",
      "valueType": "xs:dateTime",
      "description": [
        {
          "language": "en",
          "text": "Note: Timestamp of the last update"
        }
      ],
      "idShort": "LastUpdate"
    },
    {
      "modelType": "SubmodelElementCollection",
      "idShort": "Hardware",
      "value": [
        {
          "modelType": "SubmodelElementCollection",
          "idShort": "Processor",
          "value": [
            {
              "modelType": "Property",
              "value": "ARMv8",
              "valueType": "xs:string",
              "idShort": "CpuType"
            },
            {
              "modelType": "Property",
              "value": "4",
              "valueType": "xs:integer",
              "idShort": "CpuCores"
            },
            {
              "modelType": "Property",
              "value": "1.8 GHz",
              "valueType": "xs:string",
              "idShort": "CpuClock"
            },
            {
              "modelType": "Property",
              "value": "17 %",
              "valueType": "xs:string",
              "idShort": "CpuUsage"
            },
            {
              "modelType": "Property",
              "value": "55 °C",
              "valueType": "xs:string",
              "idShort": "CpuTemperature"
            }
          ]
        },
        {
          "modelType": "SubmodelElementCollection",
          "idShort": "Memory",
          "value": [
            {
              "modelType": "Property",
              "value": "2 GB",
              "valueType": "xs:string",
              "idShort": "RAMInstalled"
            },
            {
              "modelType": "Property",
              "value": "729 MB",
              "valueType": "xs:string",
              "idShort": "RAMFree"
            },
            {
              "modelType": "Property",
              "value": "17 GB",
              "valueType": "xs:string",
              "idShort": "DiskInstalled"
            },
            {
              "modelType": "Property",
              "value": "14.3 GB",
              "valueType": "xs:string",
              "idShort": "DiskFree"
            }
          ]
        },
        {
          "modelType": "Property",
          "value": "42 °C",
          "valueType": "xs:string",
          "idShort": "BoardTemperature"
        }
      ]
    }
  ]
}"#,
    );

    let submodel_value = parse(
        r#"{
  "HealthStatus": "NORMAL",
  "LastUpdate": "2022-01-01T12:00:00Z",
  "Hardware": {
    "Processor": {
      "CpuType": "ARMv7",
      "CpuCores": 4,
      "CpuClock": "1.8 GHz",
      "CpuUsage": "17 %",
      "CpuTemperature": "55 °C"
    },
    "Memory": {
      "RAMInstalled": "2 GB",
      "RAMFree": "729 MB",
      "DiskInstalled": "17 GB",
      "DiskFree": "14.3 GB"
    },
    "BoardTemperature": "50 °C"
  }
}"#,
    );

    let expected_output = parse(
        r#"{
  "modelType": "Submodel",
  "kind": "Instance",
  "id": "https://hilscher.com/ids/sm/9390_4160_0132_0940",
  "description": [
    {
      "language": "en",
      "text": "Providessome basic system information such as CPU type, CPU usage, installed memory size, memory usage, temperatures and others."
    }
  ],
  "idShort": "SystemInformation",
  "submodelElements": [
    {
      "modelType": "Property",
      "value": "NORMAL",
      "valueType": "xs:string",
      "description": [
        {
          "language": "en",
          "text": "Note: One out of the following NAMUR NE107 status: NORMAL, FAILURE, CHECK_FUNCTION, OFF_SPEC, MAINTENANCE_REQUIRED"
        }
      ],
      "idShort": "HealthStatus"
    },
    {
      "modelType": "Property",
      "valueType": "xs:dateTime",
      "description": [
        {
          "language": "en",
          "text": "Note: Timestamp of the last update"
        }
      ],
      "idShort": "LastUpdate"
    },
    {
      "modelType": "SubmodelElementCollection",
      "idShort": "Hardware",
      "value": [
        {
          "modelType": "SubmodelElementCollection",
          "idShort": "Processor",
          "value": [
            {
              "modelType": "Property",
              "value": "ARMv7",
              "valueType": "xs:string",
              "idShort": "CpuType"
            },
            {
              "modelType": "Property",
              "value": "4",
              "valueType": "xs:integer",
              "idShort": "CpuCores"
            },
            {
              "modelType": "Property",
              "value": "1.8 GHz",
              "valueType": "xs:string",
              "idShort": "CpuClock"
            },
            {
              "modelType": "Property",
              "value": "17 %",
              "valueType": "xs:string",
              "idShort": "CpuUsage"
            },
            {
              "modelType": "Property",
              "value": "55 °C",
              "valueType": "xs:string",
              "idShort": "CpuTemperature"
            }
          ]
        },
        {
          "modelType": "SubmodelElementCollection",
          "idShort": "Memory",
          "value": [
            {
              "modelType": "Property",
              "value": "2 GB",
              "valueType": "xs:string",
              "idShort": "RAMInstalled"
            },
            {
              "modelType": "Property",
              "value": "729 MB",
              "valueType": "xs:string",
              "idShort": "RAMFree"
            },
            {
              "modelType": "Property",
              "value": "17 GB",
              "valueType": "xs:string",
              "idShort": "DiskInstalled"
            },
            {
              "modelType": "Property",
              "value": "14.3 GB",
              "valueType": "xs:string",
              "idShort": "DiskFree"
            }
          ]
        },
        {
          "modelType": "Property",
          "value": "50 °C",
          "valueType": "xs:string",
          "idShort": "BoardTemperature"
        }
      ]
    }
  ]
}"#,
    );

    let result = to_value(&merge_submodel_value_to_submodel(
        to_document(&submodel),
        to_document(&submodel_value),
    ));
    println!("Result:\n{}", serde_json::to_string_pretty(&result).unwrap());
    println!("Expected:\n{}", serde_json::to_string_pretty(&expected_output).unwrap());
    assert_eq!(result, expected_output);
}

#[test]
fn test_merge_json_objects() {
    let submodel = parse(
        r#"{
  "modelType": "Submodel",
  "kind": "Instance",
  "semanticId": {
    "keys": [],
    "type": "ExternalReference"
  },
  "id": "https://murrelektronik.com/ids/ManagedDevice/9120_3140_4042_4807",
  "description": [
    {
      "language": "en",
      "text": "Contains information about menagement endpoint and onboarding status"
    }
  ],
  "idShort": "ManagedDevice",
  "submodelElements": [
    {
      "modelType": "Property",
      "semanticId": {
        "keys": [],
        "type": "ExternalReference"
      },
      "value": "OFFBOARDED",
      "valueType": "xs:string",
      "description": [
        {
          "language": "en",
          "text": "Note: One out of the following status are valide: OFFBOARDED, ONBOARDED, OFFBOARDING_REQUESTED. The devixe can set OFFBOARDED and ONBOARDED. The EMS can set OFFBOARDING_REQUESTED, so the device can than set to OFFBOARDED. Default is OFFBOARDED."
        }
      ],
      "idShort": "BoardingStatus"
    },
    {
      "modelType": "Property",
      "semanticId": {
        "keys": [],
        "type": "ExternalReference"
      },
      "valueType": "xs:string",
      "category": "VARIABLE",
      "description": [
        {
          "language": "en",
          "text": "Note: Timestamp of the last update"
        }
      ],
      "idShort": "LastUpdate"
    }
  ]
}"#,
    );

    let submodel_value = parse(
        r#"{
  "BoardingStatus": "ONBOARDED",
  "LastUpdate": null
}"#,
    );

    let expected_output = parse(
        r#"{
  "modelType": "Submodel",
  "kind": "Instance",
  "semanticId": {
    "keys": [],
    "type": "ExternalReference"
  },
  "id": "https://murrelektronik.com/ids/ManagedDevice/9120_3140_4042_4807",
  "description": [
    {
      "language": "en",
      "text": "Contains information about menagement endpoint and onboarding status"
    }
  ],
  "idShort": "ManagedDevice",
  "submodelElements": [
    {
      "modelType": "Property",
      "semanticId": {
        "keys": [],
        "type": "ExternalReference"
      },
      "value": "ONBOARDED",
      "valueType": "xs:string",
      "description": [
        {
          "language": "en",
          "text": "Note: One out of the following status are valide: OFFBOARDED, ONBOARDED, OFFBOARDING_REQUESTED. The devixe can set OFFBOARDED and ONBOARDED. The EMS can set OFFBOARDING_REQUESTED, so the device can than set to OFFBOARDED. Default is OFFBOARDED."
        }
      ],
      "idShort": "BoardingStatus"
    },
    {
      "modelType": "Property",
      "semanticId": {
        "keys": [],
        "type": "ExternalReference"
      },
      "valueType": "xs:string",
      "category": "VARIABLE",
      "description": [
        {
          "language": "en",
          "text": "Note: Timestamp of the last update"
        }
      ],
      "idShort": "LastUpdate"
    }
  ]
}"#,
    );

    let result = to_value(&merge_submodel_value_to_submodel(
        to_document(&submodel),
        to_document(&submodel_value),
    ));
    println!("Result:\n{}", serde_json::to_string_pretty(&result).unwrap());
    println!("Expected:\n{}", serde_json::to_string_pretty(&expected_output).unwrap());
    assert_eq!(result, expected_output);
}

