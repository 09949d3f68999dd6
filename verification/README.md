# Scanbro

Scan from a Brother scanner: over Wi-Fi with the eSCL protocol, over USB with eSCL on a local port
or with SANE. Pages become a PDF file, or a mail with a PDF file that a mailbox takes.

- `src/` is the library: everything that the application knows and decides. It is verified with
  Verus. Each type has a ghost model, each change of the state is a spec function on models, and
  the executable function is proved to make exactly that change.
- `app/` is the program around it: requests, processes, files, threads and the window.
- `tests/` runs the library on concrete values.

| Module | What it holds |
| --- | --- |
| `text`, `number`, `percent` | texts, numbers as they are shown, percentages as scanners write them |
| `scanner`, `status`, `state` | scanners, their status, the state of the application |
| `laws` | what holds of the state whatever news comes in |
| `xml`, `report` | the status report of a scanner |
| `escl`, `job`, `poll` | the protocol, a scan job, the watch over the scanner in use |
| `discovery`, `usb` | the search for scanners on the network and on USB |
| `scan` | a scan from its beginning to its end |
| `images`, `pdf`, `ocr`, `mail` | pages, their files, their text, their mail |
| `dashboard`, `dashboard_laws`, `keys`, `view` | what the user does and sees |

What is not proved stands in trusted declarations, each with a comment that says what it claims:
calls of `image` and `quick-xml`, and a few functions of the standard library.
