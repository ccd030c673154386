# juan_vivi

The verified core of JUAN-VIVI, a desktop assistant for a notary office:

- the AUTOFIN SP planilla rules (reading the input sheet, transforming each
  row, naming and laying out the output planilla);
- the case and repertorio databases (lookups, flexible lookups by digits,
  imports from Excel exports with duplicate reports);
- the analysis of the OCR text of a deed (repertorio number, year, title);
- the signing workflow (what the automatic mode does with a new PDF, the
  log, the form sent to SIGN+ and the reading of its answers);
- the scanner folder watcher, the ZIP print pairs and the print script;
- the licence kill switch.

`src/` is the library, verified with Verus: every public function has a
contract, and the properties that span several calls are proved as `ley_*`
proof functions. `tests/` runs the library on concrete values. `app/` is the
I/O around it: files and JSON, calamine and rust_xlsxwriter, HTTP with
reqwest, pdfium and Tesseract, PowerShell, and the Tokio loop of the watcher.
